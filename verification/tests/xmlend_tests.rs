use dash_mpd::xmlend::{identify_xml_endpos, xml_endpos_from_tokens, XmlEndError, XmlTokenKind};

#[test]
fn xml_end_after_root() {
    let input = "<?xml version=\"1.0\"?><tt><body><p>hi</p></body></tt>trailing bytes";
    let end = identify_xml_endpos(input).unwrap();
    assert_eq!(&input[..end], "<?xml version=\"1.0\"?><tt><body><p>hi</p></body></tt>");
    let input = "<root/>rest";
    assert_eq!(identify_xml_endpos(input).unwrap(), 7);
}

#[test]
fn xml_end_errors() {
    assert_eq!(identify_xml_endpos("<tt><p>open"), Err(XmlEndError::Unclosed));
    assert!(matches!(identify_xml_endpos("<tt><<"), Err(XmlEndError::Token(_))));
}

#[test]
fn xml_end_from_tokens() {
    let toks = vec![
        (XmlTokenKind::ElementStart, 3),
        (XmlTokenKind::Other, 4),
        (XmlTokenKind::ElementStart, 6),
        (XmlTokenKind::EmptyEnd, 8),
        (XmlTokenKind::CloseEnd, 13),
        (XmlTokenKind::Other, 20),
    ];
    assert_eq!(xml_endpos_from_tokens(&toks, &None), Ok(13));
    assert_eq!(xml_endpos_from_tokens(&toks[..4].to_vec(), &Some("boom".to_string())), Err(XmlEndError::Token("boom".to_string())));
}
