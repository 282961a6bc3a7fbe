//! The SegmentTemplate+SegmentTimeline addressing mode: the `S` elements of a SegmentTimeline are
//! expanded into the start time and the number of every media segment, from which the segment
//! URLs are resolved.

use vstd::prelude::*;
use crate::mpd::S;
use crate::digits::{decimal, decimal_chars, lemma_decimal};
use crate::template::{
    TemplateParams, resolve_template_values, resolve_url_template, lacks_char, number_template, time_template,
    lemma_resolve_number_template, lemma_resolve_time_template, width_template, name_number,
    lemma_resolve_number_width_template,
};
use crate::text::string_from_chars;
use crate::messages::{views, push_msg};

verus! {

/// Segment start times and numbers, in order.
pub type Slots = Seq<(int, int)>;

/// The repetitions of an `S` element are over: with `@r >= 0`, after `@r` repetitions (or, when
/// the end of the Period is enforced, once the time is past `end`); with a negative `@r`, once
/// the time is past `end`. `count` is the number of the repetition about to be made.
pub open spec fn repeats_over(time: int, count: int, r: i64, end: int, bounded: bool) -> bool {
    if r >= 0 {
        count > r || (bounded && time > end)
    } else {
        time > end
    }
}

/// The repetitions of an `S` element of duration `d` whose last segment started at `time`: the
/// slots emitted, the time of the last one, and the next number.
pub open spec fn repeats(time: int, number: int, d: int, r: i64, end: int, bounded: bool, count: int) -> (
    Slots,
    int,
    int,
)
    decreases
            (if r >= 0 && count <= r {
                r - count
            } else {
                0
            }),
            (if time > end {
                0
            } else {
                end - time + 1
            }),
{
    if repeats_over(time, count + 1, r, end, bounded) || (r < 0 && d <= 0) || d < 0 {
        (seq![], time, number)
    } else {
        let next = repeats(time + d, number + 1, d, r, end, bounded, count + 1);
        (seq![(time + d, number)] + next.0, next.1, next.2)
    }
}

/// The effect of one `S` element on the state (time, number): it starts at `@t` when given,
/// else at the current time; its segment and its repetitions are emitted; the time then
/// advances by `@d` past the last one.
pub open spec fn segment_step(s: S, time: int, number: int, end: int, bounded: bool) -> (Slots, int, int) {
    let t0 = match s.t {
        Some(t) => t as int,
        None => time,
    };
    match s.r {
        None => (seq![(t0, number)], t0 + s.d, number + 1),
        Some(r) => {
            let rep = repeats(t0, number + 1, s.d as int, r, end, bounded, 0);
            (seq![(t0, number)] + rep.0, rep.1 + s.d, rep.2)
        },
    }
}

/// The slots of the segments of a timeline, and the state that follows them; the time starts at
/// 0 and the number at `start_number`.
pub open spec fn timeline(segs: Seq<S>, start_number: int, end: int, bounded: bool) -> (Slots, int, int)
    decreases segs.len(),
{
    if segs.len() == 0 {
        (seq![], 0, start_number)
    } else {
        let prev = timeline(segs.drop_last(), start_number, end, bounded);
        let step = segment_step(segs.last(), prev.1, prev.2, end, bounded);
        (prev.0 + step.0, step.1, step.2)
    }
}

/// The repetitions stay within the machine's integers, and end: the times and numbers reached
/// fit in a `u64`, the repetition counter in an `i64`, and an open-ended repetition has a
/// positive duration.
pub open spec fn repeats_ok(time: int, number: int, d: int, r: i64, end: int, bounded: bool, count: int) -> bool
    decreases
            (if r >= 0 && count <= r {
                r - count
            } else {
                0
            }),
            (if time > end {
                0
            } else {
                end - time + 1
            }),
{
    &&& count + 1 <= i64::MAX
    &&& if repeats_over(time, count + 1, r, end, bounded) {
        true
    } else {
        &&& r >= 0 || d > 0
        &&& d >= 0
        &&& time + d <= u64::MAX
        &&& number + 1 <= u64::MAX
        &&& repeats_ok(time + d, number + 1, d, r, end, bounded, count + 1)
    }
}

pub open spec fn segment_step_ok(s: S, time: int, number: int, end: int, bounded: bool) -> bool {
    let t0 = match s.t {
        Some(t) => t as int,
        None => time,
    };
    &&& number + 1 <= u64::MAX
    &&& match s.r {
        None => t0 + s.d <= u64::MAX,
        Some(r) => repeats_ok(t0, number + 1, s.d as int, r, end, bounded, 0) && repeats(
            t0,
            number + 1,
            s.d as int,
            r,
            end,
            bounded,
            0,
        ).1 + s.d <= u64::MAX,
    }
}

/// Expanding the timeline neither overflows nor loops forever.
pub open spec fn timeline_ok(segs: Seq<S>, start_number: int, end: int, bounded: bool) -> bool
    decreases segs.len(),
{
    if segs.len() == 0 {
        true
    } else {
        let prev = timeline(segs.drop_last(), start_number, end, bounded);
        timeline_ok(segs.drop_last(), start_number, end, bounded) && segment_step_ok(
            segs.last(),
            prev.1,
            prev.2,
            end,
            bounded,
        )
    }
}

/// The pairs of `u64`s as integers.
pub open spec fn slot_view(v: Seq<(u64, u64)>) -> Slots {
    v.map_values(|p: (u64, u64)| (p.0 as int, p.1 as int))
}

proof fn lemma_slot_view_push(v: Seq<(u64, u64)>, p: (u64, u64))
    ensures
        slot_view(v.push(p)) == slot_view(v).push((p.0 as int, p.1 as int)),
{
    assert(slot_view(v.push(p)) =~= slot_view(v).push((p.0 as int, p.1 as int)));
}

/// A timeline that is fine is fine on every prefix, and the times and numbers reached fit.
proof fn lemma_timeline_prefix_ok(segs: Seq<S>, start_number: int, end: int, bounded: bool, i: int)
    requires
        0 <= i <= segs.len(),
        timeline_ok(segs, start_number, end, bounded),
    ensures
        timeline_ok(segs.take(i), start_number, end, bounded),
    decreases segs.len(),
{
    if i < segs.len() {
        assert(segs.drop_last().take(i) =~= segs.take(i));
        lemma_timeline_prefix_ok(segs.drop_last(), start_number, end, bounded, i);
    } else {
        assert(segs.take(i) =~= segs);
    }
}

/// Whether the repetitions of an `S` element stay within the machine's integers and end (see
/// `repeats_ok`), with the time of the last repetition when they do.
fn repeats_fit(time: u64, number: u64, d: u64, r: i64, end: i128, bounded: bool) -> (res: Option<(u64, u64)>)
    ensures
        res is Some <==> repeats_ok(time as int, number as int, d as int, r, end as int, bounded, 0),
        res matches Some((t, n)) ==> t as int == repeats(time as int, number as int, d as int, r, end as int, bounded, 0).1
            && n as int == repeats(time as int, number as int, d as int, r, end as int, bounded, 0).2,
{
    let mut segment_time = time;
    let mut num = number;
    let mut count: i64 = 0;
    loop
        invariant
            0 <= count,
            repeats_ok(time as int, number as int, d as int, r, end as int, bounded, 0) == repeats_ok(
                segment_time as int,
                num as int,
                d as int,
                r,
                end as int,
                bounded,
                count as int,
            ),
            repeats(time as int, number as int, d as int, r, end as int, bounded, 0).1 == repeats(
                segment_time as int,
                num as int,
                d as int,
                r,
                end as int,
                bounded,
                count as int,
            ).1,
            repeats(time as int, number as int, d as int, r, end as int, bounded, 0).2 == repeats(
                segment_time as int,
                num as int,
                d as int,
                r,
                end as int,
                bounded,
                count as int,
            ).2,
        decreases
                (if r >= 0 && count <= r {
                    r - count
                } else {
                    0
                }),
                (if segment_time > end {
                    0
                } else {
                    end - segment_time + 1
                }),
    {
        if count == i64::MAX {
            return None;
        }
        let next = count + 1;
        let over = if r >= 0 {
            next > r || (bounded && (segment_time as i128) > end)
        } else {
            (segment_time as i128) > end
        };
        if over {
            return Some((segment_time, num));
        }
        if !(r >= 0 || d > 0) || d > u64::MAX - segment_time || num == u64::MAX {
            return None;
        }
        segment_time = segment_time + d;
        num = num + 1;
        count = next;
    }
}

/// Whether expanding the timeline stays within the machine's integers and ends (see
/// `timeline_ok`): a caller tests this before expanding.
pub fn timeline_fits(segments: &Vec<S>, start_number: u64, end: i128, bounded: bool) -> (res: bool)
    ensures
        res == timeline_ok(segments@, start_number as int, end as int, bounded),
{
    let ghost segs = segments@;
    let mut segment_time: u64 = 0;
    let mut number: u64 = start_number;
    let mut i: usize = 0;
    assert(segs.take(0) =~= seq![]);
    while i < segments.len()
        invariant
            segs == segments@,
            i <= segments.len(),
            timeline_ok(segs.take(i as int), start_number as int, end as int, bounded),
            ({
                let st = timeline(segs.take(i as int), start_number as int, end as int, bounded);
                &&& segment_time as int == st.1
                &&& number as int == st.2
            }),
        decreases segments.len() - i,
    {
        proof {
            assert(segs.take(i + 1).drop_last() =~= segs.take(i as int));
            assert(segs.take(i + 1).last() == segs[i as int]);
        }
        let s = &segments[i];
        let t0 = match s.t {
            Some(t) => t,
            None => segment_time,
        };
        if number == u64::MAX {
            proof {
                if timeline_ok(segs, start_number as int, end as int, bounded) {
                    lemma_timeline_prefix_ok(segs, start_number as int, end as int, bounded, i + 1);
                }
            }
            return false;
        }
        let (last, next_number) = match s.r {
            None => (t0, number + 1),
            Some(r) => match repeats_fit(t0, number + 1, s.d, r, end, bounded) {
                Some(tn) => tn,
                None => {
                    proof {
                        if timeline_ok(segs, start_number as int, end as int, bounded) {
                            lemma_timeline_prefix_ok(segs, start_number as int, end as int, bounded, i + 1);
                        }
                    }
                    return false;
                },
            },
        };
        if s.d > u64::MAX - last {
            proof {
                if timeline_ok(segs, start_number as int, end as int, bounded) {
                    lemma_timeline_prefix_ok(segs, start_number as int, end as int, bounded, i + 1);
                }
            }
            return false;
        }
        segment_time = last + s.d;
        number = next_number;
        i = i + 1;
    }
    proof {
        assert(segs.take(segments.len() as int) =~= segs);
    }
    true
}

/// Emits the repetitions of an `S` element.
fn emit_repeats(
    out: &mut Vec<(u64, u64)>,
    time: u64,
    number: u64,
    d: u64,
    r: i64,
    end: i128,
    bounded: bool,
) -> (res: (u64, u64))
    requires
        repeats_ok(time as int, number as int, d as int, r, end as int, bounded, 0),
    ensures
        ({
            let rep = repeats(time as int, number as int, d as int, r, end as int, bounded, 0);
            &&& slot_view(final(out)@) == slot_view(old(out)@) + rep.0
            &&& res.0 as int == rep.1
            &&& res.1 as int == rep.2
        }),
{
    let mut segment_time = time;
    let mut num = number;
    let mut count: i64 = 0;
    let ghost start = slot_view(out@);
    loop
        invariant
            repeats_ok(segment_time as int, num as int, d as int, r, end as int, bounded, count as int),
            0 <= count,
            ({
                let rep = repeats(time as int, number as int, d as int, r, end as int, bounded, 0);
                let rest = repeats(
                    segment_time as int,
                    num as int,
                    d as int,
                    r,
                    end as int,
                    bounded,
                    count as int,
                );
                &&& start + rep.0 == slot_view(out@) + rest.0
                &&& rep.1 == rest.1
                &&& rep.2 == rest.2
            }),
        ensures
            repeats_over(segment_time as int, count + 1, r, end as int, bounded),
            0 <= count,
            ({
                let rep = repeats(time as int, number as int, d as int, r, end as int, bounded, 0);
                let rest = repeats(
                    segment_time as int,
                    num as int,
                    d as int,
                    r,
                    end as int,
                    bounded,
                    count as int,
                );
                &&& start + rep.0 == slot_view(out@) + rest.0
                &&& rep.1 == rest.1
                &&& rep.2 == rest.2
            }),
        decreases
                (if r >= 0 && count <= r {
                    r - count
                } else {
                    0
                }),
                (if segment_time > end {
                    0
                } else {
                    end - segment_time + 1
                }),
    {
        let next = count + 1;
        if r >= 0 {
            if next > r {
                break;
            }
            if bounded && (segment_time as i128) > end {
                break;
            }
        } else if (segment_time as i128) > end {
            break;
        }
        let ghost before = out@;
        segment_time = segment_time + d;
        out.push((segment_time, num));
        proof {
            lemma_slot_view_push(before, (segment_time, num));
        }
        num = num + 1;
        count = next;
    }
    (segment_time, num)
}

/// The start time (in timescale units) and the number of every segment of a SegmentTimeline.
/// The time starts at 0 and the number at `start_number`. An `S` element starts at its `@t` when
/// it has one, else where the previous segment ended; it stands for one segment, repeated `@r`
/// more times when `@r` is positive; with a negative `@r` the segment repeats until its start
/// passes `end` (the end of the Period, in timescale units), and with `bounded` (a forced
/// duration) a positive `@r` also stops there.
pub fn expand_timeline(segments: &Vec<S>, start_number: u64, end: i128, bounded: bool) -> (r: Vec<(u64, u64)>)
    requires
        timeline_ok(segments@, start_number as int, end as int, bounded),
    ensures
        slot_view(r@) == timeline(segments@, start_number as int, end as int, bounded).0,
{
    let ghost segs = segments@;
    let mut out: Vec<(u64, u64)> = Vec::new();
    let mut segment_time: u64 = 0;
    let mut number: u64 = start_number;
    let mut i: usize = 0;
    assert(segs.take(0) =~= seq![]);
    assert(slot_view(out@) =~= seq![]);
    while i < segments.len()
        invariant
            segs == segments@,
            i <= segments.len(),
            timeline_ok(segs, start_number as int, end as int, bounded),
            ({
                let st = timeline(segs.take(i as int), start_number as int, end as int, bounded);
                &&& slot_view(out@) == st.0
                &&& segment_time as int == st.1
                &&& number as int == st.2
            }),
        decreases segments.len() - i,
    {
        proof {
            lemma_timeline_prefix_ok(segs, start_number as int, end as int, bounded, i + 1);
            assert(segs.take(i + 1).drop_last() =~= segs.take(i as int));
            assert(segs.take(i + 1).last() == segs[i as int]);
        }
        let s = &segments[i];
        if let Some(t) = s.t {
            segment_time = t;
        }
        let d = s.d;
        let ghost before = out@;
        out.push((segment_time, number));
        proof {
            lemma_slot_view_push(before, (segment_time, number));
        }
        number = number + 1;
        if let Some(r) = s.r {
            let (tt, nn) = emit_repeats(&mut out, segment_time, number, d, r, end, bounded);
            segment_time = tt;
            number = nn;
        }
        segment_time = segment_time + d;
        i = i + 1;
    }
    proof {
        assert(segs.take(segments.len() as int) =~= segs);
    }
    out
}

/// The path of the segment in a slot: the media template (with RepresentationID and Bandwidth
/// already resolved) with `$Time$` and `$Number$` resolved.
pub open spec fn slot_path(media: Seq<char>, slot: (int, int)) -> Seq<char> {
    resolve_template_values(media, None, Some(decimal(slot.1 as nat)), Some(decimal(slot.0 as nat)), None)
}

pub open spec fn slot_paths(media: Seq<char>, slots: Slots) -> Seq<Seq<char>> {
    slots.map_values(|s: (int, int)| slot_path(media, s))
}

/// The decimal notation of `n`, as a string.
fn decimal_string(n: u64) -> (r: String)
    ensures
        r@ == decimal(n as nat),
{
    let v = decimal_chars(n);
    string_from_chars(v.as_slice())
}

/// The paths of the media segments of a SegmentTimeline: the media template is resolved for the
/// Representation's id and bandwidth, then for the time and number of each segment.
pub fn timeline_segment_paths(
    media: &str,
    representation_id: &Option<String>,
    bandwidth: &Option<String>,
    segments: &Vec<S>,
    start_number: u64,
    end: i128,
    bounded: bool,
) -> (r: Vec<String>)
    requires
        timeline_ok(segments@, start_number as int, end as int, bounded),
    ensures
        views(r@) == slot_paths(
            resolve_template_values(
                media@,
                crate::text::opt_view(*representation_id),
                None,
                None,
                crate::text::opt_view(*bandwidth),
            ),
            timeline(segments@, start_number as int, end as int, bounded).0,
        ),
{
    let base = TemplateParams {
        representation_id: representation_id.clone(),
        number: None,
        time: None,
        bandwidth: bandwidth.clone(),
    };
    let video_path = resolve_url_template(media, &base);
    let slots = expand_timeline(segments, start_number, end, bounded);
    let ghost all = timeline(segments@, start_number as int, end as int, bounded).0;
    let mut paths: Vec<String> = Vec::new();
    let mut i: usize = 0;
    assert(views(paths@) =~= slot_paths(video_path@, all).take(0));
    while i < slots.len()
        invariant
            i <= slots.len(),
            slot_view(slots@) == all,
            views(paths@) == slot_paths(video_path@, all).take(i as int),
        decreases slots.len() - i,
    {
        let (t, n) = slots[i];
        assert(all[i as int] == (t as int, n as int));
        let p = TemplateParams {
            representation_id: None,
            number: Some(decimal_string(n)),
            time: Some(decimal_string(t)),
            bandwidth: None,
        };
        let path = resolve_url_template(video_path.as_str(), &p);
        push_msg(&mut paths, path);
        assert(views(paths@) =~= slot_paths(video_path@, all).take(i + 1));
        i = i + 1;
    }
    assert(slot_paths(video_path@, all).take(slots.len() as int) =~= slot_paths(video_path@, all));
    paths
}

proof fn lemma_repeats_numbers(time: int, number: int, d: int, r: i64, end: int, bounded: bool, count: int)
    ensures
        ({
            let rep = repeats(time, number, d, r, end, bounded, count);
            &&& rep.2 == number + rep.0.len()
            &&& forall|k: int| 0 <= k < rep.0.len() ==> (#[trigger] rep.0[k]).1 == number + k
        }),
    decreases
            (if r >= 0 && count <= r {
                r - count
            } else {
                0
            }),
            (if time > end {
                0
            } else {
                end - time + 1
            }),
{
    if repeats_over(time, count + 1, r, end, bounded) || (r < 0 && d <= 0) || d < 0 {
    } else {
        lemma_repeats_numbers(time + d, number + 1, d, r, end, bounded, count + 1);
        let next = repeats(time + d, number + 1, d, r, end, bounded, count + 1);
        let rep = repeats(time, number, d, r, end, bounded, count);
        assert forall|k: int| 0 <= k < rep.0.len() implies (#[trigger] rep.0[k]).1 == number + k by {
            if k > 0 {
                assert(rep.0[k] == next.0[k - 1]);
            }
        }
    }
}

/// The segments of a SegmentTimeline are numbered consecutively from the start number: the
/// `k`-th slot has the number `start_number + k`, and the number that follows the timeline is
/// `start_number` plus the count of slots.
pub proof fn lemma_timeline_numbers_consecutive(segs: Seq<S>, start_number: int, end: int, bounded: bool)
    ensures
        ({
            let st = timeline(segs, start_number, end, bounded);
            &&& st.2 == start_number + st.0.len()
            &&& forall|k: int| 0 <= k < st.0.len() ==> (#[trigger] st.0[k]).1 == start_number + k
        }),
    decreases segs.len(),
{
    if segs.len() > 0 {
        let prev = timeline(segs.drop_last(), start_number, end, bounded);
        lemma_timeline_numbers_consecutive(segs.drop_last(), start_number, end, bounded);
        let s = segs.last();
        let t0 = match s.t {
            Some(t) => t as int,
            None => prev.1,
        };
        let step = segment_step(s, prev.1, prev.2, end, bounded);
        match s.r {
            None => {},
            Some(r) => {
                lemma_repeats_numbers(t0, prev.2 + 1, s.d as int, r, end, bounded, 0);
                let rep = repeats(t0, prev.2 + 1, s.d as int, r, end, bounded, 0);
                assert forall|k: int| 0 <= k < step.0.len() implies (#[trigger] step.0[k]).1 == prev.2 + k by {
                    if k > 0 {
                        assert(step.0[k] == rep.0[k - 1]);
                    }
                }
            },
        }
        let st = timeline(segs, start_number, end, bounded);
        assert forall|k: int| 0 <= k < st.0.len() implies (#[trigger] st.0[k]).1 == start_number + k by {
            if k < prev.0.len() {
                assert(st.0[k] == prev.0[k]);
            } else {
                assert(st.0[k] == step.0[k - prev.0.len()]);
            }
        }
    }
}

/// The path of the segment numbered `number` (SegmentTemplate@duration addressing).
pub open spec fn numbered_path(media: Seq<char>, number: int) -> Seq<char> {
    resolve_template_values(media, None, Some(decimal(number as nat)), None, None)
}

/// The decimal notation of a number holds no `$`.
proof fn lemma_decimal_lacks_dollar(n: nat)
    ensures
        lacks_char(decimal(n), '$'),
{
    lemma_decimal(n);
    assert forall|i: int| 0 <= i < decimal(n).len() implies decimal(n)[i] != '$' by {
        assert(crate::digits::is_ascii_digit(decimal(n)[i]));
    }
}

/// A segment's path puts the segment's number in place of `$Number$` and its time in place of
/// `$Time$`: for `pre + "$Number$" + suf` it is `pre + decimal(number) + suf`, for
/// `pre + "$Time$" + suf` it is `pre + decimal(time) + suf`.
pub proof fn lemma_slot_path_identifiers(pre: Seq<char>, suf: Seq<char>, slot: (int, int))
    requires
        lacks_char(pre, '$'),
        lacks_char(suf, '$'),
        slot.0 >= 0,
        slot.1 >= 0,
    ensures
        slot_path(number_template(pre, suf), slot) == pre + decimal(slot.1 as nat) + suf,
        slot_path(time_template(pre, suf), slot) == pre + decimal(slot.0 as nat) + suf,
{
    lemma_decimal_lacks_dollar(slot.0 as nat);
    lemma_decimal_lacks_dollar(slot.1 as nat);
    lemma_resolve_number_template(pre, suf, decimal(slot.1 as nat), Some(decimal(slot.0 as nat)));
    lemma_resolve_time_template(pre, suf, Some(decimal(slot.1 as nat)), decimal(slot.0 as nat));
}

/// The path of the segment numbered `n` by `pre + "$Number$" + suf` is `pre + decimal(n) + suf`.
pub proof fn lemma_numbered_path_number(pre: Seq<char>, suf: Seq<char>, n: int)
    requires
        lacks_char(pre, '$'),
        lacks_char(suf, '$'),
        n >= 0,
    ensures
        numbered_path(number_template(pre, suf), n) == pre + decimal(n as nat) + suf,
{
    lemma_decimal_lacks_dollar(n as nat);
    lemma_resolve_number_template(pre, suf, decimal(n as nat), None);
}

/// With `pre + "$Number%0<d>d$" + suf`, the path of the segment numbered `n` holds the decimal
/// notation of `n` padded with zeros on the left to `d` digits.
pub proof fn lemma_numbered_path_number_width(pre: Seq<char>, d: char, suf: Seq<char>, n: int)
    requires
        lacks_char(pre, '$'),
        lacks_char(suf, '$'),
        crate::digits::is_ascii_digit(d),
        n >= 0,
    ensures
        numbered_path(width_template(pre, name_number(), d, suf), n) == pre + (if decimal(n as nat).len()
            >= crate::digits::digit_value(d) {
            decimal(n as nat)
        } else {
            Seq::new((crate::digits::digit_value(d) - decimal(n as nat).len()) as nat, |i: int| '0') + decimal(
                n as nat,
            )
        }) + suf,
{
    lemma_resolve_number_width_template(pre, d, suf, decimal(n as nat));
}

/// The paths of `total_number` media segments numbered consecutively from `start_number`, for
/// the SegmentTemplate@duration addressing mode: the media template is resolved for the
/// Representation's id and bandwidth, then for each number.
pub fn numbered_segment_paths(
    media: &str,
    representation_id: &Option<String>,
    bandwidth: &Option<String>,
    start_number: u64,
    total_number: u64,
) -> (r: Vec<String>)
    requires
        start_number + total_number <= u64::MAX,
    ensures
        r.len() == total_number,
        forall|k: int|
            0 <= k < total_number ==> #[trigger] r@[k]@ == numbered_path(
                resolve_template_values(
                    media@,
                    crate::text::opt_view(*representation_id),
                    None,
                    None,
                    crate::text::opt_view(*bandwidth),
                ),
                start_number + k,
            ),
{
    let base = TemplateParams {
        representation_id: representation_id.clone(),
        number: None,
        time: None,
        bandwidth: bandwidth.clone(),
    };
    let video_path = resolve_url_template(media, &base);
    let mut paths: Vec<String> = Vec::new();
    let mut k: u64 = 0;
    while k < total_number
        invariant
            k <= total_number,
            start_number + total_number <= u64::MAX,
            paths.len() == k,
            forall|j: int| 0 <= j < k ==> #[trigger] paths@[j]@ == numbered_path(video_path@, start_number + j),
        decreases total_number - k,
    {
        let p = TemplateParams {
            representation_id: None,
            number: Some(decimal_string(start_number + k)),
            time: None,
            bandwidth: None,
        };
        paths.push(resolve_url_template(video_path.as_str(), &p));
        k = k + 1;
    }
    paths
}

} // verus!
