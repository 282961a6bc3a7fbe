use dash_mpd::classify::{
    content_protection_name, content_protection_type, is_audio_adaptation, is_audio_codec,
    is_subtitle_adaptation, is_subtitle_codec, is_subtitle_mimetype, is_video_adaptation,
    subtitle_type, subtitle_type_for_mimetype, SubtitleType,
};
use dash_mpd::mpd::{AdaptationSet, ContentComponent, ContentProtection, Representation};

fn s(x: &str) -> Option<String> {
    Some(x.to_string())
}

#[test]
fn audio_codecs() {
    assert!(is_audio_codec("mp4a.40.2"));
    assert!(is_audio_codec("ec-3"));
    assert!(is_audio_codec("opus"));
    assert!(!is_audio_codec("avc1.64001f"));
    assert!(!is_audio_codec("wvtt"));
}

#[test]
fn audio_adaptation_by_codec_content_type_mimetype_or_representation() {
    let a = AdaptationSet { codecs: s("mp4a.40.2"), ..Default::default() };
    assert!(is_audio_adaptation(&&a));
    let a = AdaptationSet { contentType: s("audio"), ..Default::default() };
    assert!(is_audio_adaptation(&&a));
    let a = AdaptationSet { mimeType: s("audio/mp4"), ..Default::default() };
    assert!(is_audio_adaptation(&&a));
    let r = Representation { mimeType: s("audio/webm"), ..Default::default() };
    let a = AdaptationSet { representations: vec![r], ..Default::default() };
    assert!(is_audio_adaptation(&&a));
    let a = AdaptationSet { mimeType: s("video/mp4"), ..Default::default() };
    assert!(!is_audio_adaptation(&&a));
}

#[test]
fn video_adaptation_excludes_audio() {
    // An audio adaptation is never a video adaptation, even with a video mimeType.
    let a = AdaptationSet { codecs: s("mp4a.40.2"), mimeType: s("video/mp4"), ..Default::default() };
    assert!(is_audio_adaptation(&&a));
    assert!(!is_video_adaptation(&&a));
    let a = AdaptationSet { mimeType: s("video/mp4"), ..Default::default() };
    assert!(is_video_adaptation(&&a));
    let a = AdaptationSet { contentType: s("video"), ..Default::default() };
    assert!(is_video_adaptation(&&a));
}

#[test]
fn video_adaptation_first_deciding_representation() {
    // A representation with a subtitle codec decides against video before a later video one.
    let r1 = Representation { mimeType: s("video/mp4"), codecs: s("wvtt"), ..Default::default() };
    let r2 = Representation { contentType: s("video"), ..Default::default() };
    let a = AdaptationSet { representations: vec![r1.clone(), r2.clone()], ..Default::default() };
    assert!(!is_video_adaptation(&&a));
    let a = AdaptationSet { representations: vec![r2, r1], ..Default::default() };
    assert!(is_video_adaptation(&&a));
    let a = AdaptationSet::default();
    assert!(!is_video_adaptation(&&a));
}

#[test]
fn subtitle_mimetypes_and_codecs() {
    assert!(is_subtitle_mimetype("text/vtt"));
    assert!(is_subtitle_mimetype("application/ttml+xml"));
    assert!(is_subtitle_mimetype("application/x-sami"));
    assert!(!is_subtitle_mimetype("application/mp4"));
    assert!(is_subtitle_codec("wvtt"));
    assert!(is_subtitle_codec("stpp.ttml.im1t"));
    assert!(!is_subtitle_codec("stppx"));
    assert!(!is_subtitle_codec("mp4a"));
}

#[test]
fn subtitle_adaptations() {
    let a = AdaptationSet { mimeType: s("text/vtt"), ..Default::default() };
    assert!(is_subtitle_adaptation(&&a));
    let a = AdaptationSet { contentType: s("text"), ..Default::default() };
    assert!(is_subtitle_adaptation(&&a));
    let cc = ContentComponent { contentType: s("text"), ..Default::default() };
    let a = AdaptationSet { ContentComponent: vec![cc], ..Default::default() };
    assert!(is_subtitle_adaptation(&&a));
    let r = Representation { codecs: s("stpp"), ..Default::default() };
    let a = AdaptationSet { representations: vec![r], ..Default::default() };
    assert!(is_subtitle_adaptation(&&a));
    let a = AdaptationSet { mimeType: s("video/mp4"), ..Default::default() };
    assert!(!is_subtitle_adaptation(&&a));
}

#[test]
fn subtitle_types() {
    assert_eq!(subtitle_type_for_mimetype("text/vtt"), Some(SubtitleType::Vtt));
    assert_eq!(subtitle_type_for_mimetype("application/ttml+xml"), Some(SubtitleType::Ttml));
    assert_eq!(subtitle_type_for_mimetype("application/x-sami"), Some(SubtitleType::Sami));
    assert_eq!(subtitle_type_for_mimetype("text/plain"), None);
    let a = AdaptationSet { codecs: s("stpp.ttml.im1t"), ..Default::default() };
    assert_eq!(subtitle_type(&&a), SubtitleType::Stpp);
    let a = AdaptationSet { codecs: s("c608"), ..Default::default() };
    assert_eq!(subtitle_type(&&a), SubtitleType::Eia608);
    let a = AdaptationSet { mimeType: s("text/vtt"), codecs: s("wvtt"), ..Default::default() };
    assert_eq!(subtitle_type(&&a), SubtitleType::Vtt);
    let r1 = Representation { codecs: s("tx3g"), ..Default::default() };
    let a = AdaptationSet { representations: vec![Representation::default(), r1], ..Default::default() };
    assert_eq!(subtitle_type(&&a), SubtitleType::Ttxt);
    assert_eq!(subtitle_type(&&AdaptationSet::default()), SubtitleType::Unknown);
}

#[test]
fn content_protection_names() {
    let cp = ContentProtection { value: s("cenc"), schemeIdUri: "whatever".to_string(), ..Default::default() };
    assert_eq!(content_protection_type(&cp), "cenc");
    let cp = ContentProtection { value: s("MSPR 2.0"), ..Default::default() };
    assert_eq!(content_protection_type(&cp), "PlayReady");
    // The scheme URI is compared without regard to case.
    let cp = ContentProtection {
        schemeIdUri: "urn:uuid:EDEF8BA9-79D6-4ACE-A3C8-27DCD51D21ED".to_string(),
        ..Default::default()
    };
    assert_eq!(content_protection_type(&cp), "Widevine");
    let cp = ContentProtection { schemeIdUri: "urn:mpeg:dash:sea:2012".to_string(), ..Default::default() };
    assert_eq!(content_protection_type(&cp), "SEA");
    let cp = ContentProtection { schemeIdUri: "urn:example".to_string(), ..Default::default() };
    assert_eq!(content_protection_type(&cp), "<unknown>");
    assert_eq!(content_protection_name(&None, "urn:uuid:94ce86fb-07ff-4f43-adb8-93d2fa968ca2"), "FairPlay");
}
