use dash_mpd::planning::{output_path_for_period, PeriodPath};
use dash_mpd::mpd::MPD;
use dash_mpd::planning::{
    element_resolves_to_zero, fetchable_xlink_href, generate_filename_from_url, is_absolute_url,
    mpd_is_dynamic, network_error, parse_error, partial_process_output, period_file_name,
    skip_xml_preamble, transient_error_p,
};
use dash_mpd::DashMpdError;

#[test]
fn dynamic_manifests() {
    assert!(mpd_is_dynamic(&MPD { mpdtype: Some("dynamic".to_string()), ..Default::default() }));
    assert!(!mpd_is_dynamic(&MPD { mpdtype: Some("static".to_string()), ..Default::default() }));
    assert!(!mpd_is_dynamic(&MPD::default()));
}

#[test]
fn absolute_urls() {
    assert!(is_absolute_url("https://example.com/x"));
    assert!(is_absolute_url("ftp://example.com/x"));
    assert!(!is_absolute_url("/video42.mp4"));
    assert!(!is_absolute_url("HTTP://example.com"));
}

#[test]
fn xlink_hrefs() {
    assert!(fetchable_xlink_href("https://example.com/period.xml"));
    assert!(!fetchable_xlink_href(""));
    assert!(!fetchable_xlink_href("urn:mpeg:dash:resolve-to-zero:2013"));
    assert!(element_resolves_to_zero(&Some("urn:mpeg:dash:resolve-to-zero:2013".to_string())));
    assert!(!element_resolves_to_zero(&None));
}

#[test]
fn xml_preamble() {
    assert_eq!(skip_xml_preamble("<?xml version=\"1.0\"?><MPD/>"), "<MPD/>");
    assert_eq!(skip_xml_preamble("<MPD/>"), "<MPD/>");
    assert_eq!(skip_xml_preamble("<?xml unterminated"), "<?xml unterminated");
}

#[test]
fn filenames() {
    let name = generate_filename_from_url("https://www.example.com/foo/manifest.mpd");
    assert!(name.ends_with(".mp4"));
    assert!(name.starts_with("example.com"));
    assert!(!name.contains('/'));
    assert!(!name.contains("manifest.mpd"));
    assert_eq!(period_file_name("foo", "mkv", 3), "foo-p3.mkv");
}

#[test]
fn process_output() {
    assert_eq!(partial_process_output(b"hello"), "hello");
    let long = vec![b'x'; 5000];
    assert_eq!(partial_process_output(&long).len(), 4096);
    assert_eq!(partial_process_output(&[0x66, 0xff]), "f\u{fffd}");
}

#[test]
fn network_errors() {
    assert!(transient_error_p(true, None));
    assert!(transient_error_p(false, Some(503)));
    assert!(!transient_error_p(false, Some(404)));
    assert!(!transient_error_p(false, None));
    match network_error("fetching", true, true, "boom") {
        DashMpdError::NetworkTimeout(m) => assert_eq!(m, "fetching: boom"),
        other => panic!("unexpected {other:?}"),
    }
    match network_error("fetching", false, true, "refused") {
        DashMpdError::NetworkConnect(m) => assert_eq!(m, "fetching: refused"),
        other => panic!("unexpected {other:?}"),
    }
    match network_error("fetching", false, false, "other") {
        DashMpdError::Network(m) => assert_eq!(m, "fetching: other"),
        other => panic!("unexpected {other:?}"),
    }
    match parse_error("parsing BaseURL", "bad") {
        DashMpdError::Parsing(m) => assert_eq!(m, "parsing BaseURL: bad"),
        other => panic!("unexpected {other:?}"),
    }
}

#[test]
fn output_paths_for_periods() {
    let path = |b: &str, p: u8| match output_path_for_period(b, p) {
        PeriodPath::Path(q) => q,
        PeriodPath::Temporary(pre, ext) => format!("tmp:{pre}.{ext}"),
    };
    assert_eq!(path("foo.mkv", 1), "foo.mkv");
    assert_eq!(path("foo.mkv", 2), "foo-p2.mkv");
    assert_eq!(path("foo.mkv", 3), "foo-p3.mkv");
    assert_eq!(path("/tmp/foo.mkv", 3), "/tmp/foo-p3.mkv");
    assert_eq!(path("/tmp.d/foo", 2), "tmp:dashmpd-p2.mp4");
    assert_eq!(path(".hidden", 2), "tmp:dashmpd-p2.mp4");
    assert_eq!(path("a/b.c.mp4", 12), "a/b.c-p12.mp4");
}

#[test]
fn partial_process_output_examples() {
    assert_eq!(partial_process_output(b"hello"), "hello");
    assert_eq!(partial_process_output(b""), "");
    assert_eq!(partial_process_output(&[b'a'; 5000]), "a".repeat(4096));
    assert_eq!(partial_process_output(&[0x66, 0xff]), "f\u{FFFD}");
}
