use dash_mpd::addressing::{plan_fits_check, checked_representation_plan};
use dash_mpd::addressing::{
    index_range_to_fetch, index_response_usable, numbered_fragments, period_end_in_timescale, representation_plan,
    segment_base_fragments, selected_language, AddressingPlan, SegmentDuration, StreamKind,
};
use dash_mpd::duration::XsDuration;
use dash_mpd::fragments::MediaFragment;
use dash_mpd::mpd::{
    AdaptationSet, BaseURL, Initialization, Representation, SegmentBase, SegmentList, SegmentTemplate,
    SegmentTimeline, SegmentURL, XsDouble, S,
};
use dash_mpd::template::TemplateParams;
use dash_mpd::DashMpdError;

const BASE: &str = "https://example.com/dash/manifest.mpd";

fn base_url(s: &str) -> BaseURL {
    BaseURL { base: s.to_string(), ..Default::default() }
}

fn urls(fs: &[MediaFragment]) -> Vec<String> {
    fs.iter().map(|f| f.url.clone()).collect()
}

fn representation(id: &str) -> Representation {
    Representation { id: Some(id.to_string()), bandwidth: Some(500000), ..Default::default() }
}

fn complete(p: Result<AddressingPlan, DashMpdError>) -> Vec<MediaFragment> {
    match p {
        Ok(AddressingPlan::Complete(fs)) => fs,
        _ => panic!("expected the complete list of fragments"),
    }
}

#[test]
fn template_with_duration_is_numbered_later() {
    let st = SegmentTemplate {
        initialization: Some("$RepresentationID$/init.mp4".to_string()),
        media: Some("$RepresentationID$/seg-$Number%03d$.m4s".to_string()),
        duration: Some(XsDouble { bits: 4.0f64.to_bits() }),
        timescale: Some(2),
        startNumber: Some(5),
        ..Default::default()
    };
    let r = Representation { SegmentTemplate: Some(st), ..representation("v1") };
    let a = AdaptationSet::default();
    let plan = representation_plan(StreamKind::Video, 0, BASE, &None, &a, &r, None, false);
    match plan {
        Ok(AddressingPlan::Numbered { fragments, base_url, media, start_number, duration }) => {
            assert_eq!(urls(&fragments), vec!["https://example.com/dash/v1/init.mp4".to_string()]);
            assert!(fragments[0].is_init);
            assert_eq!(base_url, BASE);
            assert_eq!(media, "v1/seg-$Number%03d$.m4s");
            assert_eq!(start_number, 5);
            assert_eq!(duration, SegmentDuration::PerTimescale(XsDouble { bits: 4.0f64.to_bits() }, 2));
            let all = numbered_fragments(StreamKind::Video, 0, fragments, &base_url, &media, 5, 3).unwrap();
            assert_eq!(
                urls(&all),
                vec![
                    "https://example.com/dash/v1/init.mp4",
                    "https://example.com/dash/v1/seg-005.m4s",
                    "https://example.com/dash/v1/seg-006.m4s",
                    "https://example.com/dash/v1/seg-007.m4s",
                ]
            );
        },
        _ => panic!("expected a numbered plan"),
    }
}

#[test]
fn inherited_duration_is_in_seconds() {
    let pt = SegmentTemplate { duration: Some(XsDouble { bits: 2.0f64.to_bits() }), ..Default::default() };
    let a = AdaptationSet {
        SegmentTemplate: Some(SegmentTemplate { media: Some("a$Number$.mp4".to_string()), ..Default::default() }),
        ..Default::default()
    };
    let r = representation("a1");
    match representation_plan(StreamKind::Audio, 1, BASE, &Some(pt), &a, &r, None, false) {
        Ok(AddressingPlan::Numbered { fragments, start_number, duration, .. }) => {
            assert!(fragments.is_empty());
            assert_eq!(start_number, 1);
            assert_eq!(duration, SegmentDuration::Seconds(XsDouble { bits: 2.0f64.to_bits() }));
        },
        _ => panic!("expected a numbered plan"),
    }
}

#[test]
fn template_duration_errors() {
    let a = AdaptationSet::default();
    let r = Representation {
        SegmentTemplate: Some(SegmentTemplate { media: Some("$Number$.m4s".to_string()), ..Default::default() }),
        ..representation("v1")
    };
    let e = representation_plan(StreamKind::Video, 0, BASE, &None, &a, &r, None, false);
    assert!(matches!(e, Err(DashMpdError::UnhandledMediaStream(m))
                     if m == "Video representation is missing SegmentTemplate@duration attribute"));
    let r = Representation {
        SegmentTemplate: Some(SegmentTemplate {
            media: Some("$Number$.m4s".to_string()),
            duration: Some(XsDouble { bits: 4.0f64.to_bits() }),
            timescale: Some(0),
            ..Default::default()
        }),
        ..representation("v1")
    };
    let e = representation_plan(StreamKind::Audio, 0, BASE, &None, &a, &r, None, false);
    assert!(matches!(e, Err(DashMpdError::UnhandledMediaStream(m))
                     if m == "SegmentTemplate@duration attribute cannot be zero"));
}

fn timeline_template(media: Option<&str>) -> SegmentTemplate {
    SegmentTemplate {
        initialization: Some("init-$RepresentationID$.mp4".to_string()),
        media: media.map(|m| m.to_string()),
        timescale: Some(10),
        SegmentTimeline: Some(SegmentTimeline {
            segments: vec![
                S { t: Some(0), d: 20, r: Some(1), ..Default::default() },
                S { d: 30, r: Some(-1), ..Default::default() },
            ],
        }),
        ..Default::default()
    }
}

#[test]
fn timeline_expands_up_to_the_end_of_the_period() {
    let a = AdaptationSet { SegmentTemplate: Some(timeline_template(Some("t$Time$.m4s"))), ..Default::default() };
    let r = representation("v2");
    // The Period lasts 10 s: 100 in units of the timescale.
    let d = Some(XsDuration { secs: 10, nanos: 0 });
    let fs = complete(representation_plan(StreamKind::Video, 2, BASE, &None, &a, &r, d, false));
    assert_eq!(
        urls(&fs),
        vec![
            "https://example.com/dash/init-v2.mp4",
            "https://example.com/dash/t0.m4s",
            "https://example.com/dash/t20.m4s",
            "https://example.com/dash/t40.m4s",
            "https://example.com/dash/t70.m4s",
            "https://example.com/dash/t100.m4s",
            "https://example.com/dash/t130.m4s",
        ]
    );
    assert!(fs[0].is_init && !fs[1].is_init);
    assert!(fs.iter().all(|f| f.period == 2));
}

#[test]
fn timeline_without_media_is_refused() {
    let a = AdaptationSet { SegmentTemplate: Some(timeline_template(None)), ..Default::default() };
    let e = representation_plan(StreamKind::Audio, 0, BASE, &None, &a, &representation("a"), None, false);
    assert!(matches!(e, Err(DashMpdError::UnhandledMediaStream(m)) if m == "SegmentTimeline without a media attribute"));
}

#[test]
fn segment_lists_of_adaptation_and_representation() {
    let sl = SegmentList {
        Initialization: Some(Initialization { sourceURL: Some("init.mp4".to_string()), range: Some("0-99".to_string()) }),
        segment_urls: vec![
            SegmentURL { media: Some("s1.mp4".to_string()), mediaRange: Some("100-199".to_string()), ..Default::default() },
            SegmentURL { media: Some("s2.mp4".to_string()), ..Default::default() },
        ],
        ..Default::default()
    };
    let r = Representation { SegmentList: Some(sl.clone()), ..representation("v") };
    let a = AdaptationSet::default();
    let fs = complete(representation_plan(StreamKind::Video, 0, BASE, &None, &a, &r, None, false));
    assert_eq!(urls(&fs), vec![
        "https://example.com/dash/init.mp4",
        "https://example.com/dash/s1.mp4",
        "https://example.com/dash/s2.mp4",
    ]);
    assert_eq!((fs[0].start_byte, fs[0].end_byte), (Some(0), Some(99)));
    assert_eq!((fs[1].start_byte, fs[1].end_byte), (Some(100), Some(199)));
    // A video AdaptationSet>SegmentList without Initialization starts with the base URL.
    let bare = SegmentList { Initialization: None, ..sl };
    let a = AdaptationSet { SegmentList: Some(bare.clone()), ..Default::default() };
    let fs = complete(representation_plan(StreamKind::Video, 0, BASE, &None, &a, &representation("v"), None, false));
    assert_eq!(urls(&fs)[0], BASE);
    assert!(fs[0].is_init);
    assert_eq!(fs.len(), 3);
    // For audio it does not.
    let fs = complete(representation_plan(StreamKind::Audio, 0, BASE, &None, &a, &representation("a"), None, false));
    assert_eq!(fs.len(), 2);
}

#[test]
fn plain_base_url_and_segment_base() {
    let a = AdaptationSet { BaseURL: vec![base_url("media/")], ..Default::default() };
    let r = Representation { BaseURL: vec![base_url("video.mp4")], ..representation("v") };
    let fs = complete(representation_plan(StreamKind::Video, 0, BASE, &None, &a, &r, None, false));
    assert_eq!(urls(&fs), vec!["https://example.com/dash/media/video.mp4"]);
    assert_eq!(fs[0].timeout, Some(XsDuration { secs: 10000, nanos: 0 }));
    let fs = complete(representation_plan(StreamKind::Audio, 0, BASE, &None, &a, &r, None, false));
    assert_eq!(fs[0].timeout, None);
    let r = Representation { SegmentBase: Some(SegmentBase::default()), ..r };
    match representation_plan(StreamKind::Audio, 0, BASE, &None, &a, &r, None, false) {
        Ok(AddressingPlan::IndexRange { fragments, base_url }) => {
            assert!(fragments.is_empty());
            assert_eq!(base_url, "https://example.com/dash/media/video.mp4");
        },
        _ => panic!("expected a SegmentBase plan"),
    }
}

#[test]
fn no_addressing_mode_is_an_error() {
    let a = AdaptationSet::default();
    let e = representation_plan(StreamKind::Video, 0, BASE, &None, &a, &representation("v"), None, false);
    assert!(matches!(e, Err(DashMpdError::UnhandledMediaStream(m))
                     if m == "no usable addressing mode identified for video representation"));
    let e = numbered_fragments(StreamKind::Audio, 0, Vec::new(), BASE, "$Number$.mp4", 1, 0);
    assert!(matches!(e, Err(DashMpdError::UnhandledMediaStream(m))
                     if m == "no usable addressing mode identified for audio representation"));
}

#[test]
fn end_of_period_in_timescale_units() {
    let d = Some(XsDuration { secs: 10, nanos: 500_000_000 });
    assert_eq!(period_end_in_timescale(StreamKind::Video, d, 1000), 10500);
    assert_eq!(period_end_in_timescale(StreamKind::Audio, d, 3), 31);
    assert_eq!(period_end_in_timescale(StreamKind::Video, None, 1000), 0);
    assert_eq!(period_end_in_timescale(StreamKind::Audio, None, 1000), -1);
    assert_eq!(period_end_in_timescale(StreamKind::Audio, None, 0), 0);
    let huge = Some(XsDuration { secs: u64::MAX, nanos: 999_999_999 });
    assert_eq!(period_end_in_timescale(StreamKind::Video, huge, u64::MAX), u64::MAX as i128);
}

#[test]
fn segment_base_with_and_without_index() {
    let sb = SegmentBase {
        indexRange: Some("839-3534".to_string()),
        Initialization: Some(Initialization { sourceURL: None, range: Some("0-838".to_string()) }),
        ..Default::default()
    };
    assert_eq!(index_range_to_fetch(true, &sb).unwrap(), Some((839, 3534)));
    assert_eq!(index_range_to_fetch(false, &sb).unwrap(), None);
    let bad = SegmentBase { indexRange: Some("839".to_string()), ..Default::default() };
    assert!(matches!(index_range_to_fetch(true, &bad), Err(DashMpdError::Parsing(_))));
    assert!(index_response_usable(2696, 839, 3534, &Some("video/mp4".to_string())));
    assert!(!index_response_usable(2695, 839, 3534, &Some("video/mp4".to_string())));
    assert!(!index_response_usable(2696, 839, 3534, &Some("video/webm".to_string())));
    assert!(!index_response_usable(2696, 839, 3534, &None));
    let params = TemplateParams { representation_id: Some("v".to_string()), number: None, time: None, bandwidth: None };
    let media = "https://example.com/v.mp4";
    let fs = segment_base_fragments(0, media, &sb, &params, &Some((3534, vec![(3535, 9999), (10000, 20000)]))).unwrap();
    let ranges: Vec<(Option<u64>, Option<u64>, bool)> = fs.iter().map(|f| (f.start_byte, f.end_byte, f.is_init)).collect();
    assert_eq!(ranges, vec![
        (Some(0), Some(3534), false),
        (Some(3535), Some(9999), false),
        (Some(10000), Some(20000), false),
        (Some(0), Some(838), true),
    ]);
    assert!(fs.iter().all(|f| f.url == media));
    let fs = segment_base_fragments(0, media, &sb, &params, &None).unwrap();
    assert_eq!(fs.len(), 1);
    assert_eq!(fs[0].timeout, Some(XsDuration { secs: 10000, nanos: 0 }));
    assert_eq!((fs[0].start_byte, fs[0].end_byte), (None, None));
}

#[test]
fn language_of_the_audio_stream() {
    let a = AdaptationSet { lang: Some("fr".to_string()), ..Default::default() };
    assert_eq!(selected_language(&Representation { lang: Some("en".to_string()), ..Default::default() }, &a), "en");
    assert_eq!(selected_language(&Representation::default(), &a), "fr");
    assert_eq!(selected_language(&Representation::default(), &AdaptationSet::default()), "unk");
}

#[test]
fn checked_plans() {
    let tl = SegmentTimeline { segments: vec![S { t: Some(0), d: 0, r: Some(-1), ..Default::default() }] };
    let st = SegmentTemplate {
        media: Some("$Time$.m4s".to_string()),
        SegmentTimeline: Some(tl),
        ..Default::default()
    };
    let r = Representation { SegmentTemplate: Some(st), ..representation("v1") };
    let a = AdaptationSet::default();
    let long = Some(XsDuration { secs: 10, nanos: 0 });
    assert!(!plan_fits_check(StreamKind::Video, 1, BASE, &None, &a, &r, long, false));
    assert!(checked_representation_plan(StreamKind::Video, 1, BASE, &None, &a, &r, long, false).is_none());
    let plain = representation("v2");
    assert!(plan_fits_check(StreamKind::Video, 1, BASE, &None, &a, &plain, None, false));
    assert!(checked_representation_plan(StreamKind::Video, 1, BASE, &None, &a, &plain, None, false).is_some());
}
