use sound_modder::loose::build_loose_map;
use sound_modder::loose::parse_wem_id;

#[test]
fn plain_decimal_stems_parse() {
    assert_eq!(parse_wem_id("0"), Some(0));
    assert_eq!(parse_wem_id("123"), Some(123));
    assert_eq!(parse_wem_id("007"), Some(7));
    assert_eq!(parse_wem_id("4294967295"), Some(u32::MAX));
}

#[test]
fn a_leading_plus_sign_is_accepted() {
    assert_eq!(parse_wem_id("+42"), Some(42));
}

#[test]
fn non_numeric_stems_are_rejected() {
    assert_eq!(parse_wem_id(""), None);
    assert_eq!(parse_wem_id("+"), None);
    assert_eq!(parse_wem_id("12a"), None);
    assert_eq!(parse_wem_id("-3"), None);
    assert_eq!(parse_wem_id("1 2"), None);
    assert_eq!(parse_wem_id("m\u{00FA}sica"), None);
}

#[test]
fn values_over_the_id_range_are_rejected() {
    assert_eq!(parse_wem_id("4294967296"), None);
    assert_eq!(parse_wem_id("99999999999999999999"), None);
}

#[test]
fn parsing_agrees_with_the_standard_parser() {
    for stem in ["0", "+9", "10", "4294967295", "4294967296", "", "x", "-1", "3.5"] {
        assert_eq!(parse_wem_id(stem), stem.parse::<u32>().ok(), "stem {:?}", stem);
    }
}

#[test]
fn the_map_holds_every_file_under_its_id() {
    let files = vec![
        ("10".to_string(), vec![0x01, 0x02]),
        ("+7".to_string(), vec![0x03]),
    ];
    let map = build_loose_map(&files).unwrap();
    assert_eq!(map.get(&10), Some(&vec![0x01, 0x02]));
    assert_eq!(map.get(&7), Some(&vec![0x03]));
    assert_eq!(map.get(&8), None);
    assert_eq!(map.len(), 2);
}

#[test]
fn a_later_duplicate_stem_replaces_the_earlier_file() {
    let files = vec![
        ("5".to_string(), vec![0x01]),
        ("5".to_string(), vec![0x02]),
    ];
    let map = build_loose_map(&files).unwrap();
    assert_eq!(map.get(&5), Some(&vec![0x02]));
    assert_eq!(map.len(), 1);
}

#[test]
fn an_invalid_stem_is_reported_by_name() {
    let files = vec![
        ("5".to_string(), vec![0x01]),
        ("thumbs".to_string(), vec![0x02]),
    ];
    assert_eq!(build_loose_map(&files), Err("thumbs".to_string()));
}
