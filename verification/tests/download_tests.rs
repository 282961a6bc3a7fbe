use dash_mpd::download::segment_progress_percent;
use dash_mpd::download::{period_fragment_indices, next_fragment_attempt, FragmentAttempt, fragment_body_kept, progress_percent};
use dash_mpd::download::{outputs_plan, OutputsPlan};
use dash_mpd::download::{manifest_request, manifest_status_error, relocated_manifest_request};
use dash_mpd::download::metainformation;
use dash_mpd::mpd::{Copyright, ProgramInformation, Title};
use dash_mpd::download::{count_download_error, decryption_tool, fragment_request, DecryptionTool, FragmentRequest};
use dash_mpd::fetch::DashDownloader;
use dash_mpd::fragments::MediaFragmentBuilder;
use dash_mpd::classify::SubtitleType;
use dash_mpd::download::{
    check_live_allowed, period_base_url, period_output, period_too_short, periods_to_download, subtitle_merge,
    toplevel_base_url, uses_content_protection, PeriodOutput, SubtitleMerge,
};
use dash_mpd::duration::XsDuration;
use dash_mpd::mpd::{AdaptationSet, BaseURL, ContentProtection, Period, Representation, MPD};
use dash_mpd::DashMpdError;

fn secs(s: u64) -> Option<XsDuration> {
    Some(XsDuration { secs: s, nanos: 0 })
}

#[test]
fn live_manifests_need_permission() {
    let live = MPD { mpdtype: Some("dynamic".to_string()), ..Default::default() };
    assert!(matches!(check_live_allowed(&live, false),
                     Err(DashMpdError::UnhandledMediaStream(m)) if m == "Don't know how to download dynamic MPD"));
    assert!(check_live_allowed(&live, true).is_ok());
    let vod = MPD { mpdtype: Some("static".to_string()), ..Default::default() };
    assert!(check_live_allowed(&vod, false).is_ok());
}

#[test]
fn base_urls_of_manifest_and_period() {
    let mpd = MPD {
        base_url: vec![BaseURL { base: "content/".to_string(), ..Default::default() }],
        ..Default::default()
    };
    let redirected = "https://example.com/a/manifest.mpd?token=1";
    assert_eq!(toplevel_base_url(redirected, &mpd, &None).unwrap(), "https://example.com/a/content/?token=1");
    assert_eq!(
        toplevel_base_url(redirected, &mpd, &Some("https://cdn.example.net/x/".to_string())).unwrap(),
        "https://cdn.example.net/x/"
    );
    let period = Period { BaseURL: vec![BaseURL { base: "p1/".to_string(), ..Default::default() }], ..Default::default() };
    assert_eq!(period_base_url("https://example.com/a/", &period).unwrap(), "https://example.com/a/p1/");
    assert_eq!(period_base_url("https://example.com/a/", &Period::default()).unwrap(), "https://example.com/a/");
}

#[test]
fn short_periods_are_skipped() {
    assert!(period_too_short(secs(10), Some(XsDuration { secs: 9, nanos: 999 })));
    assert!(!period_too_short(secs(10), secs(10)));
    assert!(!period_too_short(None, secs(1)));
    assert!(!period_too_short(secs(10), None));
    let periods = vec![
        Period { duration: secs(30), ..Default::default() },
        Period { duration: secs(5), ..Default::default() },
        Period::default(),
        Period { duration: secs(60), ..Default::default() },
    ];
    assert_eq!(periods_to_download(&periods, secs(10)), vec![1, 3, 4]);
    assert_eq!(periods_to_download(&periods, None), vec![1, 2, 3, 4]);
}

#[test]
fn output_of_a_period() {
    assert_eq!(period_output(true, true, true, true).unwrap(), PeriodOutput::MuxAudioVideo);
    assert_eq!(period_output(true, false, true, true).unwrap(), PeriodOutput::CopyAudio);
    assert_eq!(period_output(false, true, true, true).unwrap(), PeriodOutput::CopyVideo);
    assert_eq!(period_output(false, false, false, false).unwrap(), PeriodOutput::Nothing);
    assert!(matches!(period_output(false, false, true, true),
                     Err(DashMpdError::UnhandledMediaStream(m)) if m == "no audio or video streams found"));
    assert!(matches!(period_output(false, false, false, true),
                     Err(DashMpdError::UnhandledMediaStream(m)) if m == "no video streams found"));
    assert!(matches!(period_output(false, false, true, false),
                     Err(DashMpdError::UnhandledMediaStream(m)) if m == "no audio streams found"));
}

#[test]
fn stpp_subtitles_are_merged_by_container() {
    let stpp = vec![SubtitleType::Vtt, SubtitleType::Stpp];
    assert_eq!(subtitle_merge(&stpp, &None), SubtitleMerge::Mp4Box);
    assert_eq!(subtitle_merge(&stpp, &Some("mp4".to_string())), SubtitleMerge::Mp4Box);
    assert_eq!(subtitle_merge(&stpp, &Some("webm".to_string())), SubtitleMerge::Mkvmerge);
    assert_eq!(subtitle_merge(&stpp, &Some("avi".to_string())), SubtitleMerge::NoMerge);
    assert_eq!(subtitle_merge(&vec![SubtitleType::Vtt], &Some("mkv".to_string())), SubtitleMerge::NoMerge);
}

#[test]
fn content_protection_anywhere() {
    let cp = ContentProtection::default();
    let plain = MPD {
        periods: vec![Period { adaptations: vec![AdaptationSet::default()], ..Default::default() }],
        ..Default::default()
    };
    assert!(!uses_content_protection(&plain));
    let on_rep = MPD {
        periods: vec![
            Period::default(),
            Period {
                adaptations: vec![
                    AdaptationSet::default(),
                    AdaptationSet {
                        representations: vec![Representation::default(), Representation { ContentProtection: vec![cp.clone()], ..Default::default() }],
                        ..Default::default()
                    },
                ],
                ..Default::default()
            },
        ],
        ..Default::default()
    };
    assert!(uses_content_protection(&on_rep));
    let on_adaptation = MPD {
        periods: vec![Period { adaptations: vec![AdaptationSet { ContentProtection: vec![cp], ..Default::default() }], ..Default::default() }],
        ..Default::default()
    };
    assert!(uses_content_protection(&on_adaptation));
}

#[test]
fn fragment_requests() {
    let d = DashDownloader::new("https://example.com/m.mpd");
    let f = MediaFragmentBuilder::new(1, "https://example.com/s1.m4s".to_string())
        .with_range(Some(100), Some(199))
        .build();
    let r: FragmentRequest = fragment_request("video", &f, &d);
    assert_eq!(r.url, "https://example.com/s1.m4s");
    assert_eq!(r.accept, "video/*;q=0.9,*/*;q=0.5");
    assert_eq!(r.range, Some("bytes=100-199".to_string()));
    assert_eq!(r.referer, "https://example.com/m.mpd");
    assert_eq!(r.basic_auth, None);
    let d = d.with_referer("https://portal.example.com/".to_string()).with_authentication("u", "p").with_auth_bearer("tok");
    let f = MediaFragmentBuilder::new(1, "https://example.com/s2.m4s".to_string()).with_range(Some(5), None).build();
    let r = fragment_request("audio", &f, &d);
    assert_eq!(r.range, None);
    assert_eq!(r.referer, "https://portal.example.com/");
    assert_eq!(r.basic_auth, Some(("u".to_string(), "p".to_string())));
    assert_eq!(r.bearer_token, Some("tok".to_string()));
}

#[test]
fn download_errors_are_counted() {
    assert_eq!(count_download_error(0, 30).unwrap(), 1);
    assert_eq!(count_download_error(29, 30).unwrap(), 30);
    assert!(matches!(count_download_error(30, 30),
                     Err(DashMpdError::Network(m)) if m == "more than max_error_count network errors"));
}

#[test]
fn decryption_tools_by_name() {
    assert_eq!(decryption_tool("mp4decrypt").unwrap(), DecryptionTool::Mp4decrypt);
    assert_eq!(decryption_tool("shaka-container").unwrap(), DecryptionTool::ShakaContainer);
    assert_eq!(decryption_tool("mp4box").unwrap(), DecryptionTool::Mp4Box);
    assert!(matches!(decryption_tool("openssl"),
                     Err(DashMpdError::Decrypting(m)) if m == "unknown decryption application"));
}

#[test]
fn metainformation_attributes() {
    let mpd = MPD {
        ProgramInformation: vec![ProgramInformation {
            Title: Some(Title { content: Some("A film".to_string()) }),
            Copyright: Some(Copyright { content: Some("(c) Someone".to_string()) }),
            ..Default::default()
        }],
        ..Default::default()
    };
    let d = DashDownloader::new("https://example.com/m.mpd");
    let attrs = metainformation(&d, &mpd);
    assert_eq!(attrs, vec![
        ("user.xdg.origin.url".to_string(), "https://example.com/m.mpd".to_string()),
        ("user.dublincore.title".to_string(), "A film".to_string()),
        ("user.dublincore.rights".to_string(), "(c) Someone".to_string()),
    ]);
    let secret = DashDownloader::new("https://user:pw@example.com/m.mpd");
    assert_eq!(metainformation(&secret, &mpd).len(), 2);
    assert!(metainformation(&d.clone().record_metainformation(false), &mpd).is_empty());
    assert!(metainformation(&d.fetch_audio(false).fetch_video(false), &mpd).is_empty());
}

#[test]
fn manifest_requests() {
    let d = DashDownloader::new("https://example.com/m.mpd").with_authentication("u", "p");
    let r = manifest_request(&d);
    assert_eq!(r.url, "https://example.com/m.mpd");
    assert_eq!(r.headers.len(), 4);
    assert_eq!(r.headers[0], ("Accept".to_string(), "application/dash+xml,video/vnd.mpeg.dash.mpd".to_string()));
    assert_eq!(r.basic_auth, Some(("u".to_string(), "p".to_string())));
    assert_eq!(r.bearer_token, None);
    let d = d.with_referer("https://portal.example.com/".to_string());
    assert_eq!(manifest_request(&d).headers[4], ("Referer".to_string(), "https://portal.example.com/".to_string()));
    let plain = DashDownloader::new("https://example.com/m.mpd");
    let r = relocated_manifest_request(&plain, "https://cdn.example.com/m2.mpd");
    assert_eq!(r.url, "https://cdn.example.com/m2.mpd");
    assert_eq!(r.headers[3], ("Referer".to_string(), "https://example.com/m.mpd".to_string()));
    assert!(matches!(manifest_status_error("404"),
                     DashMpdError::Network(m) if m == "fetching DASH manifest (HTTP 404)"));
}

#[test]
fn outputs_of_the_periods() {
    assert_eq!(outputs_plan(0, true, true), OutputsPlan::NoOutput);
    assert_eq!(outputs_plan(1, false, false), OutputsPlan::Single);
    assert_eq!(outputs_plan(3, true, true), OutputsPlan::Concatenate);
    assert_eq!(outputs_plan(3, true, false), OutputsPlan::Separate);
    assert_eq!(outputs_plan(2, false, true), OutputsPlan::Separate);
}

#[test]
fn fragment_fetching_steps() {
    let fs = vec![
        MediaFragmentBuilder::new(1, "https://e/1".to_string()).build(),
        MediaFragmentBuilder::new(2, "https://e/2".to_string()).build(),
        MediaFragmentBuilder::new(1, "https://e/3".to_string()).build(),
    ];
    assert_eq!(period_fragment_indices(&fs, 1), vec![0, 2]);
    assert_eq!(period_fragment_indices(&fs, 2), vec![1]);
    assert!(period_fragment_indices(&fs, 3).is_empty());
    assert_eq!(next_fragment_attempt(0, 3, false), FragmentAttempt::Fetch);
    assert_eq!(next_fragment_attempt(1, 3, true), FragmentAttempt::Done);
    assert_eq!(next_fragment_attempt(2, 3, false), FragmentAttempt::Fetch);
    assert_eq!(next_fragment_attempt(3, 3, false), FragmentAttempt::GiveUp);
    assert_eq!(next_fragment_attempt(0, 0, false), FragmentAttempt::GiveUp);
    assert!(fragment_body_kept(false, "audio", &None));
    assert!(!fragment_body_kept(true, "audio", &None));
    assert!(fragment_body_kept(true, "audio", &Some("video/mp4".to_string())));
    assert!(fragment_body_kept(true, "audio", &Some("audio/mp4".to_string())));
    assert!(!fragment_body_kept(true, "video", &Some("audio/mp4".to_string())));
    assert!(fragment_body_kept(true, "video", &Some("application/octet-stream".to_string())));
    assert!(!fragment_body_kept(true, "video", &Some("text/html".to_string())));
    assert_eq!(progress_percent(1, 98), 1);
    assert_eq!(progress_percent(3, 8), 30);
    assert_eq!(progress_percent(10, 8), 100);
    assert_eq!(progress_percent(1, 1), 34);
}

#[test]
fn video_progress_and_fetch_mode() {
    assert_eq!(segment_progress_percent(1, 3), 34);
    assert_eq!(segment_progress_percent(3, 3), 100);
    assert_eq!(segment_progress_percent(0, 0), 0);
    assert_eq!(segment_progress_percent(2, 0), u32::MAX);
    let d = DashDownloader::new("https://example.com/m.mpd");
    let f = MediaFragmentBuilder::new(1, "https://example.com/s1.m4s".to_string()).build();
    assert_eq!(fragment_request("audio", &f, &d).fetch_mode, "navigate");
}
