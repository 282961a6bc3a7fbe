use dash_mpd::fragments::{merge_all, segment_list_fragments, template_fragments, MediaFragment};
use dash_mpd::mpd::{Initialization, SegmentList, SegmentURL};
use dash_mpd::DashMpdError;

fn s(x: &str) -> Option<String> {
    Some(x.to_string())
}

fn summary(fs: &[MediaFragment]) -> Vec<(String, Option<u64>, Option<u64>, bool)> {
    fs.iter().map(|f| (f.url.clone(), f.start_byte, f.end_byte, f.is_init)).collect()
}

#[test]
fn merging_many_paths() {
    let paths = vec!["a.mp4".to_string(), "/b.mp4".to_string()];
    assert_eq!(merge_all("https://example.com/dash/m.mpd?k=1", &paths).unwrap(),
               vec!["https://example.com/dash/a.mp4?k=1", "https://example.com/b.mp4?k=1"]);
    assert!(merge_all("https://example.com/", &vec![]).unwrap().is_empty());
}

#[test]
fn template_mode_fragments() {
    let paths = vec!["seg-1.m4s".to_string(), "seg-2.m4s".to_string()];
    let fs = template_fragments(3, "https://cdn.example.com/v/", &s("$RepresentationID$-init.mp4"), &s("720p"), &None, &paths).unwrap();
    assert_eq!(summary(&fs), vec![
        ("https://cdn.example.com/v/720p-init.mp4".to_string(), None, None, true),
        ("https://cdn.example.com/v/seg-1.m4s".to_string(), None, None, false),
        ("https://cdn.example.com/v/seg-2.m4s".to_string(), None, None, false),
    ]);
    assert!(fs.iter().all(|f| f.period == 3 && f.timeout.is_none()));
    let fs = template_fragments(1, "https://cdn.example.com/v/", &None, &None, &None, &paths).unwrap();
    assert_eq!(fs.len(), 2);
}

#[test]
fn segment_list_mode_fragments() {
    let sl = SegmentList {
        Initialization: Some(Initialization { sourceURL: s("init-$Bandwidth$.mp4"), range: s("0-99") }),
        segment_urls: vec![
            SegmentURL { media: s("s1.mp4"), mediaRange: s("100-199"), ..Default::default() },
            SegmentURL { mediaRange: s("200-299"), ..Default::default() },
        ],
        ..Default::default()
    };
    let fs = segment_list_fragments(1, "https://example.com/a/", &sl, &None, &s("64000"), &s("whole.mp4")).unwrap();
    assert_eq!(summary(&fs), vec![
        ("https://example.com/a/init-64000.mp4".to_string(), Some(0), Some(99), true),
        ("https://example.com/a/s1.mp4".to_string(), Some(100), Some(199), false),
        ("https://example.com/a/whole.mp4".to_string(), Some(200), Some(299), false),
    ]);
    // Without a fallback BaseURL, a SegmentURL without @media gives no fragment.
    let fs = segment_list_fragments(1, "https://example.com/a/", &sl, &None, &None, &None).unwrap();
    assert_eq!(fs.len(), 2);
    // An Initialization without @sourceURL is the base URL itself.
    let sl2 = SegmentList { Initialization: Some(Initialization { sourceURL: None, range: None }), ..Default::default() };
    let fs = segment_list_fragments(1, "https://example.com/a/v.mp4", &sl2, &None, &None, &None).unwrap();
    assert_eq!(summary(&fs), vec![("https://example.com/a/v.mp4".to_string(), None, None, true)]);
}

#[test]
fn segment_list_errors() {
    let sl = SegmentList {
        segment_urls: vec![SegmentURL { media: s("s1.mp4"), mediaRange: s("oops"), ..Default::default() }],
        ..Default::default()
    };
    match segment_list_fragments(1, "https://example.com/", &sl, &None, &None, &None) {
        Err(DashMpdError::Parsing(m)) => assert_eq!(m, "invalid range specifier: oops"),
        other => panic!("unexpected {other:?}"),
    }
}
