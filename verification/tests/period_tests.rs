use dash_mpd::mpd::{AdaptationSet, Representation, SegmentTemplate, SegmentTimeline, XsDouble, S};
use dash_mpd::period::{representation_params, representation_template, representation_timeline, TemplateSettings};

fn s(x: &str) -> Option<String> {
    Some(x.to_string())
}

#[test]
fn template_settings_are_inherited_and_overridden() {
    let period_st = SegmentTemplate { media: s("p-$Number$.m4s"), timescale: Some(1000), duration: Some(XsDouble { bits: 4.0f64.to_bits() }), ..Default::default() };
    let adaptation_st = SegmentTemplate { initialization: s("init.mp4"), startNumber: Some(5), ..Default::default() };
    let rep_st = SegmentTemplate { media: s("r-$Number$.m4s"), duration: Some(XsDouble { bits: 2.0f64.to_bits() }), ..Default::default() };
    let st = TemplateSettings::new().inherit(&period_st).inherit(&adaptation_st).apply(&rep_st);
    assert_eq!(st.initialization, s("init.mp4"));
    assert_eq!(st.media, s("r-$Number$.m4s"));
    assert_eq!(st.timescale, 1000);
    assert_eq!(st.start_number, 5);
    // The addressing template's own @duration is not taken by apply.
    assert_eq!(st.duration, Some(XsDouble { bits: 4.0f64.to_bits() }));
    let d = TemplateSettings::new();
    assert_eq!((d.timescale, d.start_number), (1, 1));
}

#[test]
fn templates_and_timelines_of_a_representation() {
    let tl = SegmentTimeline { segments: vec![S { d: 10, ..Default::default() }] };
    let a = AdaptationSet { SegmentTemplate: Some(SegmentTemplate { SegmentTimeline: Some(tl.clone()), ..Default::default() }), ..Default::default() };
    let r = Representation { SegmentTemplate: Some(SegmentTemplate { media: s("m"), ..Default::default() }), ..Default::default() };
    assert_eq!(representation_template(&r, &a).unwrap().media, s("m"));
    // The Representation's template has no timeline: the AdaptationSet's is used.
    assert_eq!(representation_timeline(&r, &a), Some(&tl));
    let bare = Representation::default();
    assert!(representation_template(&bare, &AdaptationSet::default()).is_none());
    assert!(representation_timeline(&bare, &AdaptationSet::default()).is_none());
}

#[test]
fn template_values_of_a_representation() {
    let r = Representation { id: s("v1"), bandwidth: Some(800000), ..Default::default() };
    let p = representation_params(&r);
    assert_eq!(p.representation_id, s("v1"));
    assert_eq!(p.bandwidth, s("800000"));
    assert!(p.number.is_none() && p.time.is_none());
}
