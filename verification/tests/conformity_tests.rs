use dash_mpd::conformity::{check_conformity, check_segment_template_conformity, check_segment_template_duration, url_outcome_valid, valid_url_p};
use dash_mpd::urls::{ParsedUrl, UrlParseOutcome};
use dash_mpd::duration::XsDuration;
use dash_mpd::mpd::{AdaptationSet, BaseURL, Period, Representation, SegmentTemplate, SegmentTimeline, MPD, S, XsDouble};

fn s(x: &str) -> Option<String> {
    Some(x.to_string())
}

#[test]
fn url_validity() {
    assert!(valid_url_p("https://example.com/a.mpd"));
    assert!(valid_url_p("data:text/plain,hello"));
    assert!(valid_url_p("segment-$Number$.mp4"));
    assert!(!valid_url_p("gopher://example.com/"));
    assert!(!valid_url_p("http://exa mple.com/"));
    let parsed = |scheme: &str| UrlParseOutcome::Parsed(ParsedUrl {
        text: format!("{scheme}://example.com/"),
        scheme: scheme.to_string(),
        query: None,
        username: String::new(),
        password: None,
    });
    assert!(url_outcome_valid(&UrlParseOutcome::RelativeWithoutBase("RelativeUrlWithoutBase".to_string())));
    assert!(url_outcome_valid(&parsed("ftp")));
    assert!(!url_outcome_valid(&parsed("gopher")));
    assert!(!url_outcome_valid(&UrlParseOutcome::Invalid("EmptyHost".to_string())));
}

#[test]
fn empty_manifest_conforms() {
    assert!(check_conformity(&MPD::default()).is_empty());
}

#[test]
fn period_without_adaptations_and_limits() {
    let reps = vec![
        Representation { height: Some(720), width: Some(1280), bandwidth: Some(1000), ..Default::default() },
        Representation { height: Some(1080), width: Some(1920), bandwidth: Some(3000), ..Default::default() },
    ];
    let a = AdaptationSet { maxHeight: Some(720), maxWidth: Some(1920), maxBandwidth: Some(2000), representations: reps, ..Default::default() };
    let p1 = Period { id: s("p1"), ..Default::default() };
    let p2 = Period { adaptations: vec![a], ..Default::default() };
    let p3 = Period::default();
    let mpd = MPD { periods: vec![p1, p2, p3], ..Default::default() };
    assert_eq!(check_conformity(&mpd), vec![
        "Period with @id p1 contains no AdaptationSet elements".to_string(),
        "invalid @maxHeight on AdaptationSet".to_string(),
        "Period with @id <unspecified> contains no AdaptationSet elements".to_string(),
        "invalid @maxBandwidth on AdaptationSet".to_string(),
    ]);
}

#[test]
fn segment_durations_above_maximum() {
    let timeline = SegmentTimeline { segments: vec![
        S { d: 180000, ..Default::default() },
        S { d: 900000, ..Default::default() },
    ] };
    let outer = SegmentTemplate { timescale: Some(90000), ..Default::default() };
    let inner = SegmentTemplate { SegmentTimeline: Some(timeline), ..Default::default() };
    let r = Representation { SegmentTemplate: Some(inner.clone()), ..Default::default() };
    let a = AdaptationSet { SegmentTemplate: Some(outer), representations: vec![r], ..Default::default() };
    let mpd = MPD {
        maxSegmentDuration: Some(XsDuration::new(4, 0)),
        periods: vec![Period { adaptations: vec![a], ..Default::default() }],
        ..Default::default()
    };
    // The inner template inherits the timescale 90000: 2 s, then 10 s.
    assert_eq!(check_conformity(&mpd), vec!["SegmentTimeline has segment@d > @maxSegmentDuration".to_string()]);
    let msgs = check_segment_template_duration(&inner, &XsDuration::new(4, 0), 1);
    assert_eq!(msgs.len(), 2);
}

#[test]
fn template_misuses() {
    let st = SegmentTemplate {
        media: s("seg-$Number$-$Time$.mp4"),
        initialization: s("init-$Number$.mp4"),
        duration: Some(XsDouble { bits: 2.0f64.to_bits() }),
        SegmentTimeline: Some(SegmentTimeline::default()),
        ..Default::default()
    };
    assert_eq!(check_segment_template_conformity(&st), vec![
        "both $Number$ and $Time$ are used in media template URL".to_string(),
        "$Number$ identifier used in initialization segment URL".to_string(),
        "both SegmentTemplate.duration and SegmentTemplate.SegmentTimeline present".to_string(),
    ]);
}

#[test]
fn invalid_base_urls() {
    let mpd = MPD {
        base_url: vec![BaseURL { base: "gopher://example.com/".to_string(), ..Default::default() }],
        periods: vec![Period {
            BaseURL: vec![BaseURL { base: "https://cdn.example.com/".to_string(), ..Default::default() }],
            adaptations: vec![AdaptationSet::default()],
            ..Default::default()
        }],
        ..Default::default()
    };
    assert_eq!(check_conformity(&mpd), vec!["invalid URL gopher://example.com/".to_string()]);
}
