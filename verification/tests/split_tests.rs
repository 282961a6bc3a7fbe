use dash_mpd::split::{format_uint_vector, parse_range, parse_ratio, parse_u64, parse_uint_vector, split_at_char, split_terminator_at, split_words, white_space};
use dash_mpd::DashMpdError;

#[test]
fn splitting() {
    assert_eq!(split_at_char("a,b,,c", ','), vec!["a", "b", "", "c"]);
    assert_eq!(split_at_char("", ','), vec![""]);
    assert_eq!(split_terminator_at("5-", '-'), vec!["5"]);
    assert_eq!(split_terminator_at("", '-'), Vec::<String>::new());
}

#[test]
fn u64_fields() {
    assert_eq!(parse_u64("42"), Some(42));
    assert_eq!(parse_u64("+7"), Some(7));
    assert_eq!(parse_u64("18446744073709551615"), Some(u64::MAX));
    assert_eq!(parse_u64("18446744073709551616"), None);
    assert_eq!(parse_u64(""), None);
    assert_eq!(parse_u64("+"), None);
    assert_eq!(parse_u64("1a"), None);
}

#[test]
fn ranges() {
    assert_eq!(parse_range("45-67").unwrap(), (45, 67));
    assert_eq!(parse_range("0-0").unwrap(), (0, 0));
    match parse_range("45") {
        Err(DashMpdError::Parsing(m)) => assert_eq!(m, "invalid range specifier: 45"),
        other => panic!("unexpected {other:?}"),
    }
    match parse_range("x-5") {
        Err(DashMpdError::Parsing(m)) => assert_eq!(m, "invalid start for range specifier"),
        other => panic!("unexpected {other:?}"),
    }
    match parse_range("5--") {
        Err(DashMpdError::Parsing(m)) => assert_eq!(m, "invalid end for range specifier"),
        other => panic!("unexpected {other:?}"),
    }
}

#[test]
fn ratios() {
    assert_eq!(parse_ratio("24/1", '/'), Some((24, 1)));
    assert_eq!(parse_ratio("30000/1001", '/'), Some((30000, 1001)));
    assert_eq!(parse_ratio("16:9", ':'), Some((16, 9)));
    assert_eq!(parse_ratio("16:9:1", ':'), None);
    assert_eq!(parse_ratio("16", ':'), None);
}

#[test]
fn words_and_uint_vectors() {
    assert_eq!(split_words("  1 22\t333\n\u{3000}4 "), vec!["1", "22", "333", "4"]);
    assert!(split_words(" \u{a0} ").is_empty());
    assert!(white_space('\u{2028}'));
    assert!(!white_space('x'));
    assert_eq!(parse_uint_vector("1 2  3").unwrap(), vec![1, 2, 3]);
    assert_eq!(parse_uint_vector("").unwrap(), Vec::<u64>::new());
    assert_eq!(parse_uint_vector("1 x 3"), Err("invalid digit found in string".to_string()));
    assert_eq!(format_uint_vector(&vec![1, 20, 300]), "1 20 300 ");
}

#[test]
fn uint_vector_roundtrip_on_examples() {
    for v in [vec![], vec![0u64], vec![1, 2, 3], vec![u64::MAX, 0, 42]] {
        assert_eq!(parse_uint_vector(&format_uint_vector(&v)).unwrap(), v);
    }
}
