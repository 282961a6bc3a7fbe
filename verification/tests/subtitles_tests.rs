use dash_mpd::subtitles::{subtitle_plan_fits_check, checked_subtitle_plan, checked_select_subtitle_adaptation};
use dash_mpd::subtitle_safety::{ttml_hazard_check, vtt_hazard_check};
use dash_mpd::addressing::{append_numbered_fragments, SegmentDuration};
use dash_mpd::classify::SubtitleType;
use dash_mpd::duration::XsDuration;
use dash_mpd::mpd::{AdaptationSet, BaseURL, Representation, SegmentList, SegmentTemplate, SegmentTimeline, SegmentURL, XsDouble, S};
use dash_mpd::subtitles::{
    data_url_content, is_data_url, mp4box_srt_args, needs_srt_conversion, select_subtitle_adaptation, subtitle_extension,
    subtitle_plan, convert_ttml_srt, convert_vtt_srt, SubtitlePlan,
};
use dash_mpd::DashMpdError;

const BASE: &str = "https://example.com/dash/";

fn subs(lang: Option<&str>) -> AdaptationSet {
    AdaptationSet { mimeType: Some("text/vtt".to_string()), lang: lang.map(|l| l.to_string()), ..Default::default() }
}

fn video() -> AdaptationSet {
    AdaptationSet { mimeType: Some("video/mp4".to_string()), ..Default::default() }
}

#[test]
fn choice_of_subtitle_adaptation() {
    let adaps = vec![video(), subs(Some("en")), subs(Some("fr-CA")), subs(Some("fr"))];
    assert_eq!(select_subtitle_adaptation(&adaps, &None), Some(1));
    assert_eq!(select_subtitle_adaptation(&adaps, &Some("fr".to_string())), Some(3));
    assert_eq!(select_subtitle_adaptation(&adaps, &Some("fr-FR".to_string())), Some(2));
    assert_eq!(select_subtitle_adaptation(&adaps, &Some("de".to_string())), Some(1));
    assert_eq!(select_subtitle_adaptation(&vec![video()], &Some("fr".to_string())), None);
}

#[test]
fn subtitle_files_and_conversion() {
    assert_eq!(subtitle_extension(SubtitleType::Vtt), "vtt");
    assert_eq!(subtitle_extension(SubtitleType::Stpp), "stpp");
    assert_eq!(subtitle_extension(SubtitleType::Ass), "sub");
    assert!(needs_srt_conversion(&vec![SubtitleType::Vtt, SubtitleType::Wvtt]));
    assert!(needs_srt_conversion(&vec![SubtitleType::Ttxt]));
    assert!(!needs_srt_conversion(&vec![SubtitleType::Vtt, SubtitleType::Stpp]));
    assert_eq!(mp4box_srt_args("out.srt", "in.wvtt"), vec!["-srt", "1", "-out", "out.srt", "in.wvtt"]);
}

#[test]
fn subtitles_named_by_base_urls() {
    let r = Representation {
        BaseURL: vec![
            BaseURL { base: "subs/en.vtt".to_string(), ..Default::default() },
            BaseURL { base: "https://cdn.example.net/en2.vtt".to_string(), ..Default::default() },
        ],
        ..Default::default()
    };
    let a = AdaptationSet { representations: vec![r], ..subs(Some("en")) };
    match subtitle_plan(1, BASE, &a, None, false) {
        Ok(SubtitlePlan::Files(us)) => assert_eq!(us, vec![
            "https://example.com/dash/subs/en.vtt".to_string(),
            "https://cdn.example.net/en2.vtt".to_string(),
        ]),
        _ => panic!("expected subtitle files"),
    }
}

#[test]
fn subtitles_without_representation_or_template() {
    let a = subs(None);
    assert!(matches!(subtitle_plan(1, BASE, &a, None, false), Ok(SubtitlePlan::Fragments(fs)) if fs.is_empty()));
    let a = AdaptationSet { representations: vec![Representation::default()], ..subs(None) };
    assert!(matches!(subtitle_plan(1, BASE, &a, None, false), Ok(SubtitlePlan::Fragments(fs)) if fs.is_empty()));
}

#[test]
fn subtitle_template_needs_an_id() {
    let st = SegmentTemplate { media: Some("s$Number$.m4s".to_string()), ..Default::default() };
    let a = AdaptationSet { SegmentTemplate: Some(st), representations: vec![Representation::default()], ..subs(None) };
    assert!(matches!(subtitle_plan(1, BASE, &a, None, false),
                     Err(DashMpdError::UnhandledMediaStream(m)) if m == "Missing @id on Representation node"));
}

#[test]
fn subtitle_segment_list_is_read_twice() {
    let sl = SegmentList {
        segment_urls: vec![SegmentURL { media: Some("c1.m4s".to_string()), ..Default::default() }],
        ..Default::default()
    };
    let r = Representation {
        id: Some("s".to_string()),
        SegmentList: Some(sl),
        SegmentTemplate: Some(SegmentTemplate::default()),
        ..Default::default()
    };
    let a = AdaptationSet { representations: vec![r], ..subs(None) };
    match subtitle_plan(1, BASE, &a, None, false) {
        Ok(SubtitlePlan::Fragments(fs)) => {
            let urls: Vec<String> = fs.iter().map(|f| f.url.clone()).collect();
            assert_eq!(urls, vec!["https://example.com/dash/c1.m4s", "https://example.com/dash/c1.m4s"]);
        },
        _ => panic!("expected fragments"),
    }
}

#[test]
fn subtitle_timeline_and_numbered_templates() {
    let st = SegmentTemplate {
        initialization: Some("$RepresentationID$/init.mp4".to_string()),
        media: Some("$RepresentationID$/$Time$.m4s".to_string()),
        SegmentTimeline: Some(SegmentTimeline { segments: vec![S { t: Some(0), d: 5, r: Some(2), ..Default::default() }] }),
        ..Default::default()
    };
    let a = AdaptationSet {
        SegmentTemplate: Some(st),
        representations: vec![Representation { id: Some("tt".to_string()), ..Default::default() }],
        ..subs(None)
    };
    match subtitle_plan(3, BASE, &a, Some(XsDuration { secs: 60, nanos: 0 }), false) {
        Ok(SubtitlePlan::Fragments(fs)) => {
            let urls: Vec<String> = fs.iter().map(|f| f.url.clone()).collect();
            assert_eq!(urls, vec![
                "https://example.com/dash/tt/init.mp4",
                "https://example.com/dash/tt/0.m4s",
                "https://example.com/dash/tt/5.m4s",
                "https://example.com/dash/tt/10.m4s",
            ]);
            assert!(fs[0].is_init && fs.iter().all(|f| f.period == 3));
        },
        _ => panic!("expected fragments"),
    }
    let st = SegmentTemplate {
        media: Some("$RepresentationID$/$Number$.m4s".to_string()),
        duration: Some(XsDouble { bits: 6.0f64.to_bits() }),
        timescale: Some(1),
        ..Default::default()
    };
    let a = AdaptationSet {
        representations: vec![Representation { id: Some("tt".to_string()), SegmentTemplate: Some(st), ..Default::default() }],
        ..subs(None)
    };
    match subtitle_plan(1, BASE, &a, None, false) {
        Ok(SubtitlePlan::Numbered { mut fragments, base_url, media, start_number, duration }) => {
            assert!(fragments.is_empty());
            assert_eq!(media, "tt/$Number$.m4s");
            assert_eq!(start_number, 1);
            assert_eq!(duration, SegmentDuration::PerTimescale(XsDouble { bits: 6.0f64.to_bits() }, 1));
            append_numbered_fragments(&mut fragments, 1, &base_url, &media, 1, 2).unwrap();
            let urls: Vec<String> = fragments.iter().map(|f| f.url.clone()).collect();
            assert_eq!(urls, vec!["https://example.com/dash/tt/1.m4s", "https://example.com/dash/tt/2.m4s"]);
        },
        _ => panic!("expected a numbered plan"),
    }
}

#[test]
fn webvtt_and_ttml_to_subrip() {
    let vtt = b"WEBVTT\n\n00:00:01.000 --> 00:00:02.500\nHello\n";
    let srt = String::from_utf8(convert_vtt_srt(vtt).unwrap()).unwrap();
    assert!(srt.starts_with("1\n00:00:01,000 --> 00:00:02,500\nHello"));
    assert!(matches!(convert_vtt_srt(b"not subtitles at all"), Err(DashMpdError::Io(d, _))
                     if d == "converting WebVTT subtitles to SubRip format"));
    let ttml = br#"<?xml version="1.0" encoding="UTF-8"?>
<tt xmlns="http://www.w3.org/ns/ttml"><body><div><p begin="00:00:01.000" end="00:00:02.000">Bonjour</p></div></body></tt>"#;
    let srt = String::from_utf8(convert_ttml_srt(ttml).unwrap()).unwrap();
    assert!(srt.contains("Bonjour"));
    assert!(matches!(convert_ttml_srt(b"<html></html>"), Err(DashMpdError::Io(d, _)) if d == "parsing TTML subtitles"));
}

#[test]
fn data_urls() {
    assert!(is_data_url("data:audio/mp4;base64,AAAA"));
    assert!(!is_data_url("https://example.com/a.mp4"));
    assert_eq!(data_url_content("data:audio/mp4;base64,AAECAw==", "audio").unwrap(), vec![0, 1, 2, 3]);
    assert_eq!(data_url_content("data:video/mp4,hi%20there", "video").unwrap(), b"hi there".to_vec());
    assert!(matches!(data_url_content("data:video/mp4;base64,AAECAw==", "audio"),
                     Err(DashMpdError::UnhandledMediaStream(m)) if m == "expecting audio content in data URL"));
    assert!(matches!(data_url_content("https://example.com/", "audio"),
                     Err(DashMpdError::Parsing(m)) if m == "parsing data URL"));
    assert!(matches!(data_url_content("data:audio/mp4;base64,A", "audio"),
                     Err(DashMpdError::Parsing(m)) if m == "decoding data URL"));
}

#[test]
fn unreadable_colour_values_are_refused() {
    let vtt = "WEBVTT\n\nSTYLE\n::cue { color: #é1; }\n\n00:00:01.000 --> 00:00:02.000\nHi\n".as_bytes();
    assert!(matches!(convert_vtt_srt(vtt), Err(DashMpdError::Io(d, c))
                     if d == "converting WebVTT subtitles to SubRip format" && c == "subtitle document that the converter cannot read safely"));
    // A colour in ASCII followed later by non-ASCII text is converted.
    let vtt = "WEBVTT\n\nSTYLE\n::cue { color: #fff; }\n\n00:00:01.000 --> 00:00:02.000\nÉté\n".as_bytes();
    let srt = String::from_utf8(convert_vtt_srt(vtt).unwrap()).unwrap();
    assert!(srt.contains("Été"));
    let ttml = r##"<tt xmlns="http://www.w3.org/ns/ttml" xmlns:tts="http://www.w3.org/ns/ttml#styling"><head><styling><style xml:id="s1" tts:color="#é1"/></styling></head><body><div><p begin="00:00:01.000" end="00:00:02.000">Hi</p></div></body></tt>"##;
    assert!(matches!(convert_ttml_srt(ttml.as_bytes()), Err(DashMpdError::Io(d, c))
                     if d == "parsing TTML subtitles" && c == "subtitle document that the converter cannot read safely"));
    let ttml = r##"<tt><head><styling><style xml:id="s1" tts:color="#&#233;1"/></styling></head></tt>"##;
    assert!(matches!(convert_ttml_srt(ttml.as_bytes()), Err(DashMpdError::Io(_, c)) if c == "subtitle document that the converter cannot read safely"));
    let ttml = r##"<tt xmlns="http://www.w3.org/ns/ttml" xmlns:tts="http://www.w3.org/ns/ttml#styling"><head><styling><style xml:id="s1" tts:color="#ffffff"/></styling></head><body><div><p begin="00:00:01.000" end="00:00:02.000">Été</p></div></body></tt>"##;
    let srt = String::from_utf8(convert_ttml_srt(ttml.as_bytes()).unwrap()).unwrap();
    assert!(srt.contains("Été"));
}

#[test]
fn colour_hazard_checks() {
    assert!(vtt_hazard_check("::cue { color: #aé1; }".as_bytes()));
    assert!(!vtt_hazard_check("::cue { color: #abc; } é".as_bytes()));
    assert!(!vtt_hazard_check("::cue { color: #abc; font: é }".as_bytes()));
    assert!(!vtt_hazard_check("00:01.000 --> 00:02.000\n#1 été".as_bytes()));
    assert!(vtt_hazard_check(&[0xFF, 0xFE, b'a', 0]));
    assert!(!vtt_hazard_check(b"WEBVTT"));
    assert!(ttml_hazard_check("a=\"#é\"".as_bytes()));
    assert!(ttml_hazard_check("a = '#aé'".as_bytes()));
    assert!(ttml_hazard_check(b"a=\"#&#233;\""));
    assert!(ttml_hazard_check("a=#é".as_bytes()));
    assert!(ttml_hazard_check("a=\"#fff\" b=\"é\"".as_bytes()));
    assert!(!ttml_hazard_check("<p a=\"#fff\">x</p> <q/>é".as_bytes()));
}

#[test]
fn time_and_nesting_hazard_checks() {
    // An hours field of seven or more digits may overflow.
    assert!(vtt_hazard_check(b"WEBVTT\n\n3000000000:00:00.000 --> 3000000001:00:00.000\nx\n"));
    assert!(!vtt_hazard_check(b"WEBVTT\n\n999999:00:00.000 --> 999999:00:01.000\nx\n"));
    // More than 64 tags in one cue block; the count starts again after a blank line.
    let deep = format!("WEBVTT\n\n00:00.000 --> 00:01.000\n{}x\n", "<b>".repeat(65));
    assert!(vtt_hazard_check(deep.as_bytes()));
    let many = format!("WEBVTT\n\n{}", "00:00.000 --> 00:01.000\n<b>x</b>\n\n".repeat(100));
    assert!(!vtt_hazard_check(many.as_bytes()));
    let many_crlf = format!("WEBVTT\r\n\r\n{}", "00:00.000 --> 00:01.000\r\n<i>x</i>\r\n\r\n".repeat(100));
    assert!(!vtt_hazard_check(many_crlf.as_bytes()));
    // TTML: a clock-time fraction with non-ASCII characters, a time too large, a floating-point
    // exponent, a frame rate, a comment, deep nesting.
    assert!(ttml_hazard_check("<tt><body><div begin=\"00:00:01.éééé\"></div></body></tt>".as_bytes()));
    assert!(ttml_hazard_check(b"<tt><body><div begin=\"9999999999:00:00\"></div></body></tt>"));
    assert!(ttml_hazard_check(b"<tt><body><div begin=\"1e300s\"></div></body></tt>"));
    assert!(ttml_hazard_check(b"<tt><body><div begin=\"infs\"></div></body></tt>"));
    assert!(!ttml_hazard_check(b"<tt><body><div tts:fontSize=\"1.5em\"></div></body></tt>"));
    assert!(ttml_hazard_check(b"<tt ttp:frameRate=\"30\"><body/></tt>"));
    assert!(ttml_hazard_check(b"<tt ttp:tickRate=\"10000000\"><body/></tt>"));
    assert!(ttml_hazard_check(b"<tt><!-- note --><body/></tt>"));
    assert!(ttml_hazard_check(b"<tt><?pi?><body/></tt>"));
    let deep = format!("<tt>{}</tt>", "<span>".repeat(70));
    assert!(ttml_hazard_check(deep.as_bytes()));
    let wide = format!("<?xml version=\"1.0\" encoding=\"UTF-8\"?>\n<tt><body><div>{}</div></body></tt>",
        "<p begin=\"00:00:01.000\" end=\"00:00:02.000\">Été<br/>x</p>\n".repeat(500));
    assert!(!ttml_hazard_check(wide.as_bytes()));
    let with_bom = format!("\u{FEFF}<?xml version=\"1.0\"?><tt/>");
    assert!(!ttml_hazard_check(with_bom.as_bytes()));
}

#[test]
fn checked_subtitle_plans_and_choice() {
    let tl = SegmentTimeline { segments: vec![S { t: Some(0), d: 0, r: Some(-1), ..Default::default() }] };
    let st = SegmentTemplate { media: Some("$Time$.m4s".to_string()), SegmentTimeline: Some(tl), ..Default::default() };
    let r = Representation { id: Some("tt".to_string()), SegmentTemplate: Some(st), ..Default::default() };
    let a = AdaptationSet { mimeType: Some("application/ttml+xml".to_string()), representations: vec![r], ..Default::default() };
    let long = Some(XsDuration { secs: 10, nanos: 0 });
    assert!(!subtitle_plan_fits_check(1, BASE, &a, long, false));
    assert!(checked_subtitle_plan(1, BASE, &a, long, false).is_none());
    let empty = AdaptationSet { mimeType: Some("application/ttml+xml".to_string()), ..Default::default() };
    assert!(subtitle_plan_fits_check(1, BASE, &empty, long, false));
    assert!(checked_subtitle_plan(1, BASE, &empty, long, false).is_some());
    // A language whose first two bytes split a character has no defined distance.
    let odd = AdaptationSet { mimeType: Some("application/ttml+xml".to_string()), lang: Some("aé".to_string()), ..Default::default() };
    assert_eq!(checked_select_subtitle_adaptation(&vec![odd.clone()], &Some("en".to_string())), Err(()));
    assert_eq!(checked_select_subtitle_adaptation(&vec![odd], &None), Ok(Some(0)));
}
