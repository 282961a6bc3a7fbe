use dash_mpd::fetch::{assoc_get, DashDownloader};
use dash_mpd::selection::QualityPreference;

fn strings(v: &[&str]) -> Vec<String> {
    v.iter().map(|s| s.to_string()).collect()
}

#[test]
fn new_has_the_default_settings() {
    let d = DashDownloader::new("https://example.com/manifest.mpd");
    assert_eq!(d.mpd_url, "https://example.com/manifest.mpd");
    assert_eq!(d.redirected_url, "https://example.com/manifest.mpd");
    assert!(d.quality_preference == QualityPreference::Lowest);
    assert_eq!(d.role_preference, strings(&["main", "alternate"]));
    assert!(d.fetch_video && d.fetch_audio && !d.fetch_subtitles);
    assert!(d.concatenate_periods && d.content_type_checks && d.conformity_checks);
    assert_eq!(d.fragment_retry_count, 10);
    assert_eq!(d.max_error_count, 30);
    assert_eq!(d.decryptor_preference, "mp4decrypt");
    assert_eq!(d.vlc_location, "vlc");
    assert_eq!(d.mp4box_location, "MP4Box");
    assert_eq!(d.shaka_packager_location, "shaka-packager");
    assert!(d.bw_quota.is_none());
}

#[test]
fn new_normalizes_the_redirected_url() {
    let d = DashDownloader::new("HTTPS://Example.COM");
    assert_eq!(d.redirected_url, "https://example.com/");
}

#[test]
fn try_new_refuses_what_is_not_a_url() {
    assert!(DashDownloader::try_new("not a url").is_none());
    assert!(DashDownloader::try_new("/relative/path.mpd").is_none());
    assert!(DashDownloader::try_new("file:///tmp/a.mpd").is_some());
}

#[test]
fn builders_set_their_field() {
    let d = DashDownloader::new("https://example.com/a.mpd")
        .best_quality()
        .prefer_language("fr".to_string())
        .prefer_video_width(1280)
        .audio_only()
        .with_authentication("user", "pass")
        .with_ffmpeg("/opt/ffmpeg")
        .verbosity(3)
        .fragment_retry_count(4)
        .with_xslt_stylesheet("a.xslt".to_string())
        .with_xslt_stylesheet("b.xslt".to_string());
    assert!(d.quality_preference == QualityPreference::Highest);
    assert_eq!(d.language_preference, Some("fr".to_string()));
    assert_eq!(d.video_width_preference, Some(1280));
    assert!(d.fetch_audio && !d.fetch_video);
    assert_eq!(d.auth_username, Some("user".to_string()));
    assert_eq!(d.auth_password, Some("pass".to_string()));
    assert_eq!(d.ffmpeg_location, "/opt/ffmpeg");
    assert_eq!(d.verbosity, 3);
    assert_eq!(d.fragment_retry_count, 4);
    assert_eq!(d.xslt_stylesheets, strings(&["a.xslt", "b.xslt"]));
    assert_eq!(d.mpd_url, "https://example.com/a.mpd");
}

#[test]
fn prefer_roles_ignores_an_overlong_list() {
    let d = DashDownloader::new("https://example.com/a.mpd").prefer_roles(strings(&["alternate"]));
    assert_eq!(d.role_preference, strings(&["alternate"]));
    let long: Vec<String> = (0..300).map(|i| format!("r{i}")).collect();
    let d = d.prefer_roles(long);
    assert_eq!(d.role_preference, strings(&["alternate"]));
}

#[test]
fn a_later_decryption_key_replaces_the_earlier() {
    let d = DashDownloader::new("https://example.com/a.mpd")
        .add_decryption_key("1".to_string(), "aa".to_string())
        .add_decryption_key("2".to_string(), "bb".to_string())
        .add_decryption_key("1".to_string(), "cc".to_string());
    assert_eq!(
        d.decryption_keys,
        vec![("2".to_string(), "bb".to_string()), ("1".to_string(), "cc".to_string())]
    );
    assert_eq!(assoc_get(&d.decryption_keys, "1"), Some("cc".to_string()));
    assert_eq!(assoc_get(&d.decryption_keys, "3"), None);
}

#[test]
fn the_last_muxer_ordering_is_retained() {
    let d = DashDownloader::new("https://example.com/a.mpd")
        .with_muxer_preference("mkv", "ffmpeg")
        .with_muxer_preference("mp4", "vlc")
        .with_muxer_preference("mkv", "mkvmerge,ffmpeg")
        .with_concat_preference("mp4", "mp4box");
    assert_eq!(assoc_get(&d.muxer_preference, "mkv"), Some("mkvmerge,ffmpeg".to_string()));
    assert_eq!(assoc_get(&d.muxer_preference, "mp4"), Some("vlc".to_string()));
    assert_eq!(assoc_get(&d.concat_preference, "mp4"), Some("mp4box".to_string()));
    assert_eq!(assoc_get(&d.concat_preference, "mkv"), None);
}

#[test]
fn rate_limit_quota_is_in_kilobytes() {
    let d = DashDownloader::new("https://example.com/a.mpd").with_rate_limit(0);
    assert_eq!(d.rate_limit, 0);
    assert_eq!(d.bw_quota, Some((1, 10240)));
    let d = d.with_rate_limit(100 * 1024);
    assert_eq!(d.bw_quota, Some((101, 10240)));
    let d = d.with_rate_limit(u64::MAX);
    assert_eq!(d.bw_quota, Some((u32::MAX, 10240)));
}

#[test]
fn more_builders() {
    let d = DashDownloader::new("file:///tmp/m.mpd")
        .with_base_url("https://example.com/".to_string())
        .intermediate_quality()
        .prefer_video_height(720)
        .video_only()
        .keep_video_as("v.mp4".to_string())
        .keep_audio_as("a.mp4".to_string())
        .save_fragments_to("frags".to_string())
        .without_content_type_checks()
        .with_decryptor_preference("shaka")
        .with_mkvmerge("/opt/mkvmerge")
        .with_mp4box("/opt/MP4Box")
        .with_mp4decrypt("/opt/mp4decrypt")
        .with_shaka_packager("/opt/packager");
    assert_eq!(d.base_url, Some("https://example.com/".to_string()));
    assert!(d.quality_preference == QualityPreference::Intermediate);
    assert_eq!(d.video_height_preference, Some(720));
    assert!(d.fetch_video && !d.fetch_audio);
    assert_eq!(d.keep_video, Some("v.mp4".to_string()));
    assert_eq!(d.keep_audio, Some("a.mp4".to_string()));
    assert_eq!(d.fragment_path, Some("frags".to_string()));
    assert!(!d.content_type_checks);
    assert_eq!(d.decryptor_preference, "shaka");
    assert_eq!(d.mkvmerge_location, "/opt/mkvmerge");
    assert_eq!(d.mp4box_location, "/opt/MP4Box");
    assert_eq!(d.mp4decrypt_location, "/opt/mp4decrypt");
    assert_eq!(d.shaka_packager_location, "/opt/packager");
    assert!(d.worst_quality().quality_preference == QualityPreference::Lowest);
}
