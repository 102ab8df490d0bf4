use sound_modder::pck::PckError;
use sound_modder::pck::PckHeader;
use sound_modder::pck::PckWemEntry;
use sound_modder::pck::repack;
use sound_modder::pck::wem_slice;

fn sample_header() -> PckHeader {
    PckHeader {
        wem_offset_start: 16,
        wem_entries: vec![
            PckWemEntry { id: 7, offset: 0, length: 0 },
            PckWemEntry { id: 3, offset: 0, length: 0 },
        ],
    }
}

#[test]
fn repack_lays_out_offsets_and_body_in_entry_order() {
    let mut header = sample_header();
    // The directory order differs from the entry order on purpose.
    let files = vec![
        ("3".to_string(), vec![0x0A, 0x0B]),
        ("7".to_string(), vec![0x01, 0x02, 0x03]),
    ];
    let body = repack(&mut header, &files).unwrap();
    assert_eq!(header.wem_offset_start, 16);
    assert_eq!(
        header.wem_entries,
        vec![
            PckWemEntry { id: 7, offset: 16, length: 3 },
            PckWemEntry { id: 3, offset: 19, length: 2 },
        ],
    );
    // The body is the loose bytes concatenated in entry order, so each
    // entry's range holds its own file.
    assert_eq!(body, vec![0x01, 0x02, 0x03, 0x0A, 0x0B]);
    for (entry, expected) in header.wem_entries.iter().zip([
        vec![0x01u8, 0x02, 0x03],
        vec![0x0Au8, 0x0B],
    ]) {
        let lo = (entry.offset - header.wem_offset_start) as usize;
        let hi = lo + entry.length as usize;
        assert_eq!(&body[lo..hi], &expected[..]);
    }
}

#[test]
fn repack_with_missing_id_fails_and_mutates_nothing() {
    let mut header = sample_header();
    let files = vec![("7".to_string(), vec![0x01])];
    let result = repack(&mut header, &files);
    assert_eq!(result, Err(PckError::MissingSource { id: 3 }));
    assert_eq!(header, sample_header());
}

#[test]
fn repack_with_bad_file_name_fails_and_mutates_nothing() {
    let mut header = sample_header();
    let files = vec![
        ("7".to_string(), vec![0x01]),
        ("readme".to_string(), vec![0x02]),
    ];
    let result = repack(&mut header, &files);
    assert_eq!(result, Err(PckError::InvalidFileName { name: "readme".to_string() }));
    assert_eq!(header, sample_header());
}

#[test]
fn repack_past_the_offset_range_fails_and_mutates_nothing() {
    let mut header = PckHeader {
        wem_offset_start: u32::MAX,
        wem_entries: vec![PckWemEntry { id: 1, offset: 0, length: 0 }],
    };
    let files = vec![("1".to_string(), vec![0x01])];
    let result = repack(&mut header, &files);
    assert_eq!(result, Err(PckError::OffsetOverflow));
    assert_eq!(header.wem_offset_start, u32::MAX);
    assert_eq!(header.wem_entries, vec![PckWemEntry { id: 1, offset: 0, length: 0 }]);
}

#[test]
fn repack_of_an_empty_table_produces_an_empty_body() {
    let mut header = PckHeader { wem_offset_start: 16, wem_entries: vec![] };
    let body = repack(&mut header, &vec![]).unwrap();
    assert!(body.is_empty());
    assert!(header.wem_entries.is_empty());
}

#[test]
fn wem_slice_cuts_exactly_the_addressed_range() {
    let file: Vec<u8> = vec![0, 1, 2, 3, 4, 5, 6, 7];
    let entry = PckWemEntry { id: 9, offset: 2, length: 3 };
    assert_eq!(wem_slice(&file, &entry), Ok(vec![2, 3, 4]));
}

#[test]
fn wem_slice_past_the_end_fails() {
    let file: Vec<u8> = vec![0, 1, 2, 3];
    let entry = PckWemEntry { id: 9, offset: 2, length: 3 };
    assert_eq!(wem_slice(&file, &entry), Err(PckError::OutOfBounds { id: 9 }));
    let far = PckWemEntry { id: 9, offset: 200, length: 1 };
    assert_eq!(wem_slice(&file, &far), Err(PckError::OutOfBounds { id: 9 }));
}

#[test]
fn get_wem_offset_start_reports_the_header_constant() {
    let header = sample_header();
    assert_eq!(header.get_wem_offset_start(), 16);
}
