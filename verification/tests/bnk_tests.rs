use sound_modder::bnk::Bnk;
use sound_modder::bnk::BnkError;
use sound_modder::bnk::DidxEntry;
use sound_modder::bnk::Section;
use sound_modder::bnk::SectionPayload;
use sound_modder::bnk::DATA_MAGIC;
use sound_modder::bnk::DIDX_MAGIC;
use sound_modder::bnk::extract_streams;
use sound_modder::bnk::filter_sections;
use sound_modder::bnk::update_bnk_data;

const BKHD_MAGIC: u32 = 0x4448_4B42;

fn didx_section(ids: &[u32]) -> Section {
    Section {
        magic: DIDX_MAGIC,
        payload: SectionPayload::Didx {
            entries: ids.iter().map(|&id| DidxEntry { id }).collect(),
        },
    }
}

fn data_section(blocks: &[&[u8]]) -> Section {
    Section {
        magic: DATA_MAGIC,
        payload: SectionPayload::Data {
            data_list: blocks.iter().map(|b| b.to_vec()).collect(),
        },
    }
}

fn opaque_section(magic: u32, bytes: &[u8]) -> Section {
    Section {
        magic,
        payload: SectionPayload::Opaque { bytes: bytes.to_vec() },
    }
}

fn sample_bnk() -> Bnk {
    Bnk {
        sections: vec![
            opaque_section(BKHD_MAGIC, &[1, 2, 3, 4]),
            didx_section(&[10, 20]),
            data_section(&[&[0xAA, 0xBB], &[0xCC]]),
        ],
    }
}

#[test]
fn filter_without_list_changes_nothing() {
    let mut bnk = sample_bnk();
    filter_sections(&mut bnk, None);
    assert_eq!(bnk, sample_bnk());
}

#[test]
fn filter_keeps_listed_sections_unchanged() {
    let mut bnk = sample_bnk();
    filter_sections(&mut bnk, Some(vec![BKHD_MAGIC, DIDX_MAGIC, DATA_MAGIC]));
    assert_eq!(bnk, sample_bnk());
}

#[test]
fn filter_empties_data_and_removes_the_rest() {
    let mut bnk = sample_bnk();
    filter_sections(&mut bnk, Some(vec![BKHD_MAGIC]));
    let expected = Bnk {
        sections: vec![opaque_section(BKHD_MAGIC, &[1, 2, 3, 4]), data_section(&[])],
    };
    assert_eq!(bnk, expected);
}

#[test]
fn filter_treating_index_and_data_alike_keeps_the_balance() {
    // With neither magic on the list, the index disappears and the data
    // section is emptied in place; with both, each keeps its length.
    let mut dropped = sample_bnk();
    filter_sections(&mut dropped, Some(vec![]));
    assert_eq!(dropped, Bnk { sections: vec![data_section(&[])] });

    let mut kept = sample_bnk();
    filter_sections(&mut kept, Some(vec![DIDX_MAGIC, DATA_MAGIC]));
    let expected = Bnk {
        sections: vec![didx_section(&[10, 20]), data_section(&[&[0xAA, 0xBB], &[0xCC]])],
    };
    assert_eq!(kept, expected);
}

#[test]
fn extract_pairs_ids_and_blocks_by_position() {
    let bnk = sample_bnk();
    let streams = extract_streams(&bnk).unwrap();
    assert_eq!(streams, vec![(10, vec![0xAA, 0xBB]), (20, vec![0xCC])]);
}

#[test]
fn extract_without_data_section_fails() {
    let bnk = Bnk { sections: vec![didx_section(&[10])] };
    assert_eq!(extract_streams(&bnk), Err(BnkError::NoDataSection));
}

#[test]
fn extract_with_unbalanced_container_fails() {
    let bnk = Bnk {
        sections: vec![didx_section(&[10, 20]), data_section(&[&[0xAA]])],
    };
    assert_eq!(extract_streams(&bnk), Err(BnkError::CountMismatch));
}

#[test]
fn override_fills_blocks_in_index_order() {
    let mut bnk = Bnk {
        sections: vec![
            opaque_section(BKHD_MAGIC, &[9]),
            didx_section(&[20, 10]),
            data_section(&[]),
        ],
    };
    // The directory order differs from the index order on purpose.
    let files = vec![
        ("10".to_string(), vec![0x01, 0x02]),
        ("20".to_string(), vec![0x03]),
    ];
    update_bnk_data(&mut bnk, &files).unwrap();
    let expected = Bnk {
        sections: vec![
            opaque_section(BKHD_MAGIC, &[9]),
            didx_section(&[20, 10]),
            data_section(&[&[0x03], &[0x01, 0x02]]),
        ],
    };
    assert_eq!(bnk, expected);
}

#[test]
fn override_with_missing_id_fails_and_mutates_nothing() {
    let mut bnk = Bnk {
        sections: vec![didx_section(&[10, 20]), data_section(&[])],
    };
    let files = vec![("10".to_string(), vec![0x01])];
    let result = update_bnk_data(&mut bnk, &files);
    assert_eq!(result, Err(BnkError::MissingSource { id: 20 }));
    assert_eq!(
        bnk,
        Bnk { sections: vec![didx_section(&[10, 20]), data_section(&[])] },
    );
}

#[test]
fn override_with_bad_file_name_fails_and_mutates_nothing() {
    let mut bnk = Bnk {
        sections: vec![didx_section(&[10]), data_section(&[])],
    };
    let files = vec![("cover".to_string(), vec![0x01])];
    let result = update_bnk_data(&mut bnk, &files);
    assert_eq!(result, Err(BnkError::InvalidFileName { name: "cover".to_string() }));
    assert_eq!(bnk, Bnk { sections: vec![didx_section(&[10]), data_section(&[])] });
}

#[test]
fn override_without_index_or_data_is_a_no_op() {
    let mut bnk = Bnk { sections: vec![opaque_section(BKHD_MAGIC, &[9])] };
    let files = vec![("10".to_string(), vec![0x01])];
    update_bnk_data(&mut bnk, &files).unwrap();
    assert_eq!(bnk, Bnk { sections: vec![opaque_section(BKHD_MAGIC, &[9])] });
}

#[test]
fn override_appends_to_existing_blocks() {
    // The caller contract: against a non-empty data section the override
    // appends, which is exactly why the filter step must empty it first.
    let mut bnk = Bnk {
        sections: vec![didx_section(&[10]), data_section(&[&[0xFF]])],
    };
    let files = vec![("10".to_string(), vec![0x01])];
    update_bnk_data(&mut bnk, &files).unwrap();
    let expected = Bnk {
        sections: vec![didx_section(&[10]), data_section(&[&[0xFF], &[0x01]])],
    };
    assert_eq!(bnk, expected);
}

#[test]
fn override_with_duplicate_stems_takes_the_later_file() {
    let mut bnk = Bnk {
        sections: vec![didx_section(&[10]), data_section(&[])],
    };
    let files = vec![
        ("10".to_string(), vec![0x01]),
        ("10".to_string(), vec![0x02]),
    ];
    update_bnk_data(&mut bnk, &files).unwrap();
    let expected = Bnk {
        sections: vec![didx_section(&[10]), data_section(&[&[0x02]])],
    };
    assert_eq!(bnk, expected);
}
