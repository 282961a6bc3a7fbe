use dash_mpd::timeline::timeline_fits;
use dash_mpd::fragments::MediaFragmentBuilder;
use dash_mpd::duration::XsDuration;
use dash_mpd::mpd::S;
use dash_mpd::timeline::{expand_timeline, numbered_segment_paths, timeline_segment_paths};

fn seg(t: Option<u64>, d: u64, r: Option<i64>) -> S {
    S { t, d, r, ..Default::default() }
}

#[test]
fn timeline_repeats_and_restarts() {
    // <S t="0" d="180000" r="2"/><S d="90000"/><S t="1000000" d="10"/>
    let segs = vec![seg(Some(0), 180000, Some(2)), seg(None, 90000, None), seg(Some(1000000), 10, None)];
    assert_eq!(expand_timeline(&segs, 1, 0, false),
               vec![(0, 1), (180000, 2), (360000, 3), (540000, 4), (1000000, 5)]);
}

#[test]
fn timeline_numbers_are_consecutive() {
    let segs = vec![seg(None, 5, Some(3)), seg(Some(100), 7, Some(1)), seg(None, 1, None)];
    let slots = expand_timeline(&segs, 42, 0, false);
    for (k, (_, n)) in slots.iter().enumerate() {
        assert_eq!(*n, 42 + k as u64);
    }
    assert_eq!(slots.len(), 4 + 2 + 1);
}

#[test]
fn timeline_open_ended_repeat_runs_to_the_end_of_the_period() {
    // A negative @r repeats until the segment start passes the end (here 25).
    let segs = vec![seg(Some(0), 10, Some(-1))];
    assert_eq!(expand_timeline(&segs, 1, 25, false), vec![(0, 1), (10, 2), (20, 3), (30, 4)]);
    // With a forced duration, a positive @r also stops at the end.
    let segs = vec![seg(Some(0), 10, Some(100))];
    assert_eq!(expand_timeline(&segs, 1, 15, true), vec![(0, 1), (10, 2), (20, 3)]);
    assert_eq!(expand_timeline(&segs, 1, 15, false).len(), 101);
}

#[test]
fn timeline_paths() {
    let segs = vec![seg(Some(0), 2, Some(1))];
    let paths = timeline_segment_paths("$RepresentationID$/t$Time$-n$Number%03d$.m4s", &Some("v1".to_string()), &None, &segs, 7, 0, false);
    assert_eq!(paths, vec!["v1/t0-n007.m4s".to_string(), "v1/t2-n008.m4s".to_string()]);
}

#[test]
fn duration_mode_paths() {
    let paths = numbered_segment_paths("seg-$Number$-$Bandwidth$.mp4", &None, &Some("800000".to_string()), 5, 3);
    assert_eq!(paths, vec!["seg-5-800000.mp4", "seg-6-800000.mp4", "seg-7-800000.mp4"]);
    assert!(numbered_segment_paths("x", &None, &None, 1, 0).is_empty());
}

#[test]
fn fragment_builder() {
    let f = MediaFragmentBuilder::new(2, "https://example.com/init.mp4".to_string())
        .with_range(Some(0), Some(838))
        .set_init()
        .with_timeout(XsDuration::new(10000, 0))
        .build();
    assert_eq!(f.period, 2);
    assert_eq!(f.url, "https://example.com/init.mp4");
    assert_eq!((f.start_byte, f.end_byte), (Some(0), Some(838)));
    assert!(f.is_init);
    assert_eq!(f.timeout, Some(XsDuration::new(10000, 0)));
    let g = MediaFragmentBuilder::new(1, "u".to_string()).build();
    assert!(!g.is_init && g.start_byte.is_none() && g.timeout.is_none());
}

#[test]
fn timeline_fit_checks() {
    let segs = vec![seg(Some(0), 180000, Some(2)), seg(None, 90000, None)];
    assert!(timeline_fits(&segs, 1, 0, false));
    // A segment of zero duration repeated until the end of the Period never ends.
    assert!(!timeline_fits(&vec![seg(Some(0), 0, Some(-1))], 1, 100, false));
    // Times beyond a u64.
    assert!(!timeline_fits(&vec![seg(Some(u64::MAX - 5), 10, None)], 1, 0, false));
    assert!(!timeline_fits(&vec![seg(Some(u64::MAX - 25), 10, Some(3))], 1, 0, false));
    // Numbers beyond a u64.
    assert!(!timeline_fits(&vec![seg(None, 1, Some(3))], u64::MAX - 1, 0, false));
    assert!(timeline_fits(&vec![], 5, 0, false));
}
