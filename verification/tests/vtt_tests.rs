use dash_mpd::vtt::VttDocument;

#[test]
fn vtt_fragments_are_merged_in_order() {
    let mut doc = VttDocument::new();
    assert_eq!(doc.to_string(), "");
    doc.add_content("WEBVTT\n\n").unwrap();
    doc.add_content("00:00.000 --> 00:01.000\nhello\n").unwrap();
    assert_eq!(doc.to_string(), "WEBVTT\n\n00:00.000 --> 00:01.000\nhello\n");
    // Rendering does not consume the fragments.
    assert_eq!(doc.to_string(), "WEBVTT\n\n00:00.000 --> 00:01.000\nhello\n");
}

#[test]
fn vtt_bytes_valid_and_invalid() {
    let mut doc = VttDocument::default();
    doc.add_bytes("caf\u{e9}\n".as_bytes()).unwrap();
    assert!(doc.add_bytes(&[0xff, 0xfe, 0x00]).is_ok());
    doc.add_bytes(b"end").unwrap();
    assert_eq!(doc.to_string(), "caf\u{e9}\nend");
}
