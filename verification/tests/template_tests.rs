use dash_mpd::template::{resolve_url_template, TemplateParams};

#[test]
fn test_resolve_url_template() {
    let p = TemplateParams { time: Some("ZZZ".to_string()), ..Default::default() };
    assert_eq!(resolve_url_template("AA$Time$BB", &p), "AAZZZBB");
    let p = TemplateParams { number: Some("42".to_string()), ..Default::default() };
    assert_eq!(resolve_url_template("AA$Number%06d$BB", &p), "AA000042BB");
    let dict = TemplateParams {
        representation_id: Some("640x480".to_string()),
        number: Some("42".to_string()),
        time: Some("ZZZ".to_string()),
        bandwidth: None,
    };
    assert_eq!(resolve_url_template("AA/$RepresentationID$/segment-$Number%05d$.mp4", &dict),
               "AA/640x480/segment-00042.mp4");
}

#[test]
fn template_without_identifiers_is_unchanged() {
    let dict = TemplateParams {
        representation_id: Some("r1".to_string()),
        number: Some("7".to_string()),
        time: Some("100".to_string()),
        bandwidth: Some("5000".to_string()),
    };
    assert_eq!(resolve_url_template("https://example.com/seg.mp4", &dict), "https://example.com/seg.mp4");
}

#[test]
fn template_absent_value_leaves_identifier() {
    let p = TemplateParams { number: Some("3".to_string()), ..Default::default() };
    assert_eq!(resolve_url_template("$Time$-$Number$", &p), "$Time$-3");
}

#[test]
fn template_bandwidth_and_wide_value() {
    let p = TemplateParams { bandwidth: Some("123456".to_string()), ..Default::default() };
    assert_eq!(resolve_url_template("b$Bandwidth%03d$.m4s", &p), "b123456.m4s");
    assert_eq!(resolve_url_template("$Bandwidth$/$Bandwidth$", &p), "123456/123456");
}
