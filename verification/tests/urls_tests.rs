use dash_mpd::urls::merge_baseurls;
use dash_mpd::DashMpdError;

#[test]
fn merge_keeps_the_current_query() {
    assert_eq!(merge_baseurls("https://example.com/manifest.mpd?auth=secret", "/video42.mp4").unwrap(),
               "https://example.com/video42.mp4?auth=secret");
}

#[test]
fn merge_prefers_the_new_query() {
    assert_eq!(merge_baseurls("https://example.com/manifest.mpd?auth=old", "/video42.mp4?auth=new").unwrap(),
               "https://example.com/video42.mp4?auth=new");
}

#[test]
fn merge_relative_paths() {
    assert_eq!(merge_baseurls("https://example.com/dash/manifest.mpd", "video/seg1.mp4").unwrap(),
               "https://example.com/dash/video/seg1.mp4");
}

#[test]
fn merge_absolute_url_replaces_base() {
    assert_eq!(merge_baseurls("https://example.com/manifest.mpd?auth=secret", "https://cdn.example.org/a/").unwrap(),
               "https://cdn.example.org/a/");
}

#[test]
fn merge_errors() {
    match merge_baseurls("https://example.com/", "http://exa mple.com/") {
        Err(DashMpdError::Parsing(m)) => assert!(m.starts_with("parsing BaseURL: ")),
        other => panic!("unexpected {other:?}"),
    }
    match merge_baseurls("not a url", "seg.mp4") {
        Err(DashMpdError::Parsing(m)) => assert!(m.starts_with("joining base with BaseURL: ")),
        other => panic!("unexpected {other:?}"),
    }
}
