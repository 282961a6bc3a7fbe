//! The addressing modes of a Representation: from the SegmentList, SegmentTemplate, SegmentBase
//! and BaseURL elements of a Representation and of its AdaptationSet, the media fragments to
//! download for an audio or a video stream.
//!
//! The modes are tried in this order: an AdaptationSet>SegmentList (whose fragments come first),
//! then a Representation>SegmentList, a SegmentTemplate with a SegmentTimeline, a
//! SegmentTemplate@duration, a SegmentBase@indexRange, and a plain BaseURL. The numbering of the
//! segments of a SegmentTemplate@duration depends on floating-point durations (and, for a live
//! manifest, on the clock), and a SegmentBase needs its index to be fetched: in those two modes
//! the plan says what remains to be done.

use vstd::prelude::*;
use crate::DashMpdError;
use crate::duration::XsDuration;
use crate::mpd::{AdaptationSet, Representation, SegmentTemplate, SegmentTimeline, SegmentList, SegmentBase, BaseURL, XsDouble};
use crate::urls::{spec_merge_baseurls, merge_baseurls};
use crate::fragments::{
    MediaFragment, MediaFragmentBuilder, FragmentView, fragment_view, fragment_views, plain_fragment,
    opt_range, range_of, spec_segment_urls_fragments, append_segment_url_fragments,
    spec_segment_list_fragments, segment_list_fragments, spec_template_fragments, template_fragments,
    spec_merge_all, merge_all, spec_list_init_fragment, list_init_fragments,
};
use crate::period::{representation_params, representation_template, representation_timeline, TemplateSettings, SettingsView, initial_settings, inherited_settings, applied_settings};
use crate::template::{TemplateParams, resolve_template_values, resolve_url_template};
use crate::timeline::{
    timeline, timeline_ok, timeline_fits, slot_paths, timeline_segment_paths, numbered_path, numbered_segment_paths,
    lemma_numbered_path_number,
};
use crate::digits::decimal;
use crate::text::{opt_view, str_eq};
use crate::split::{range_fields, range_error_msg};
use crate::messages::views;

verus! {

/// The kind of stream whose Representation is addressed. Audio and video differ in a few details
/// (the initialization segment of an AdaptationSet>SegmentList, the timeout of a plain BaseURL,
/// the end of the Period when its duration is unknown, and the error messages).
#[derive(Debug, Clone, Copy, PartialEq, Eq, Structural)]
pub enum StreamKind {
    Audio,
    Video,
}

/// The duration of a segment of a SegmentTemplate@duration: an `@duration` inherited from the
/// Period or the AdaptationSet, taken as seconds; or that of the addressing SegmentTemplate, in
/// units of its timescale.
#[derive(Debug, Clone, Copy, PartialEq, Eq, Structural)]
pub enum SegmentDuration {
    Seconds(XsDouble),
    PerTimescale(XsDouble, u64),
}

/// What remains to be done to list the fragments of a Representation.
#[derive(Debug, Clone)]
pub enum AddressingPlan {
    /// The fragments are all known.
    Complete(Vec<MediaFragment>),
    /// SegmentBase@indexRange: the fragments so far, to be followed by those that the index of the
    /// media at `base_url` gives.
    IndexRange { fragments: Vec<MediaFragment>, base_url: String },
    /// SegmentTemplate@duration: the fragments so far, to be followed by consecutively numbered
    /// media segments, whose paths are given by the `media` template (its RepresentationID and
    /// Bandwidth already resolved) and merged into `base_url`; the numbering starts at
    /// `start_number` (for a static manifest) and the count follows from the Period's duration
    /// and the segment duration.
    Numbered {
        fragments: Vec<MediaFragment>,
        base_url: String,
        media: String,
        start_number: u64,
        duration: SegmentDuration,
    },
}

/// An addressing plan, as plain values.
pub enum PlanView {
    Complete(Seq<FragmentView>),
    IndexRange(Seq<FragmentView>, Seq<char>),
    Numbered(Seq<FragmentView>, Seq<char>, Seq<char>, u64, SegmentDuration),
}

pub open spec fn plan_view(p: AddressingPlan) -> PlanView {
    match p {
        AddressingPlan::Complete(fs) => PlanView::Complete(fragment_views(fs@)),
        AddressingPlan::IndexRange { fragments, base_url } => PlanView::IndexRange(fragment_views(fragments@), base_url@),
        AddressingPlan::Numbered { fragments, base_url, media, start_number, duration } => PlanView::Numbered(
            fragment_views(fragments@),
            base_url@,
            media@,
            start_number,
            duration,
        ),
    }
}

/// Why no plan could be made: a URL or a byte range that does not parse (reported as
/// `DashMpdError::Parsing`), or a Representation that cannot be handled (reported as
/// `DashMpdError::UnhandledMediaStream`).
pub enum PlanError {
    Parsing(Seq<char>),
    Unhandled(Seq<char>),
}

/// The error of the library that stands for a `PlanError`.
pub open spec fn reports(e: DashMpdError, pe: PlanError) -> bool {
    match pe {
        PlanError::Parsing(m) => e matches DashMpdError::Parsing(x) && x@ == m,
        PlanError::Unhandled(m) => e matches DashMpdError::UnhandledMediaStream(x) && x@ == m,
    }
}

// ---------------------------------------------------------------------------------------------
// Messages

pub open spec fn no_usable_mode_msg(kind: StreamKind) -> Seq<char> {
    match kind {
        StreamKind::Audio => "no usable addressing mode identified for audio representation"@,
        StreamKind::Video => "no usable addressing mode identified for video representation"@,
    }
}

pub open spec fn missing_duration_msg(kind: StreamKind) -> Seq<char> {
    match kind {
        StreamKind::Audio => "Audio representation is missing SegmentTemplate@duration attribute"@,
        StreamKind::Video => "Video representation is missing SegmentTemplate@duration attribute"@,
    }
}

pub open spec fn timeline_without_media_msg() -> Seq<char> {
    "SegmentTimeline without a media attribute"@
}

pub open spec fn zero_timescale_msg() -> Seq<char> {
    "SegmentTemplate@duration attribute cannot be zero"@
}

fn no_usable_mode(kind: StreamKind) -> (e: DashMpdError)
    ensures
        reports(e, PlanError::Unhandled(no_usable_mode_msg(kind))),
{
    match kind {
        StreamKind::Audio => DashMpdError::UnhandledMediaStream(
            "no usable addressing mode identified for audio representation".to_owned(),
        ),
        StreamKind::Video => DashMpdError::UnhandledMediaStream(
            "no usable addressing mode identified for video representation".to_owned(),
        ),
    }
}

fn missing_duration(kind: StreamKind) -> (e: DashMpdError)
    ensures
        reports(e, PlanError::Unhandled(missing_duration_msg(kind))),
{
    match kind {
        StreamKind::Audio => DashMpdError::UnhandledMediaStream(
            "Audio representation is missing SegmentTemplate@duration attribute".to_owned(),
        ),
        StreamKind::Video => DashMpdError::UnhandledMediaStream(
            "Video representation is missing SegmentTemplate@duration attribute".to_owned(),
        ),
    }
}

// ---------------------------------------------------------------------------------------------
// Base URL and the end of the Period

/// The `@base` of the first of the BaseURL elements, if any.
pub open spec fn first_base(bs: Seq<BaseURL>) -> Option<Seq<char>> {
    if bs.len() > 0 {
        Some(bs[0].base@)
    } else {
        None
    }
}

/// `base` with an optional BaseURL merged into it.
pub open spec fn merge_opt(base: Seq<char>, b: Option<Seq<char>>) -> Result<Seq<char>, Seq<char>> {
    match b {
        None => Ok(base),
        Some(x) => spec_merge_baseurls(base, x),
    }
}

/// The base URL of a Representation: the Period's base URL with the first BaseURL of the
/// AdaptationSet merged into it, then the first BaseURL of the Representation.
pub open spec fn stream_base(base: Seq<char>, a: AdaptationSet, r: Representation) -> Result<Seq<char>, Seq<char>> {
    match merge_opt(base, first_base(a.BaseURL@)) {
        Err(e) => Err(e),
        Ok(b) => merge_opt(b, first_base(r.BaseURL@)),
    }
}

pub(crate) fn merge_first(base: String, bs: &Vec<BaseURL>) -> (r: Result<String, DashMpdError>)
    ensures
        match merge_opt(base@, first_base(bs@)) {
            Ok(u) => r matches Ok(v) && v@ == u,
            Err(e) => r matches Err(x) && reports(x, PlanError::Parsing(e)),
        },
{
    if bs.len() > 0 {
        merge_baseurls(base.as_str(), bs[0].base.as_str())
    } else {
        Ok(base)
    }
}

/// The base URL of a Representation (see `stream_base`).
pub fn stream_base_url(base_url: &str, a: &AdaptationSet, r: &Representation) -> (u: Result<String, DashMpdError>)
    ensures
        match stream_base(base_url@, *a, *r) {
            Ok(b) => u matches Ok(v) && v@ == b,
            Err(e) => u matches Err(x) && reports(x, PlanError::Parsing(e)),
        },
{
    let b1 = match merge_first(base_url.to_owned(), &a.BaseURL) {
        Ok(b) => b,
        Err(e) => return Err(e),
    };
    merge_first(b1, &r.BaseURL)
}

/// The end of the Period in timescale units, beyond which a SegmentTimeline stops repeating
/// segments: the duration of the Period times the timescale, rounded down (at most
/// `u64::MAX`). With no known duration the Period is taken to last 0 seconds for video and -1
/// second for audio.
pub open spec fn timeline_end(kind: StreamKind, duration: Option<XsDuration>, timescale: u64) -> int {
    match duration {
        Some(d) => {
            let e = d.secs * timescale + (d.nanos * timescale) / 1_000_000_000;
            if e > u64::MAX {
                u64::MAX as int
            } else {
                e
            }
        },
        None => match kind {
            StreamKind::Video => 0,
            StreamKind::Audio => if timescale == 0 {
                0
            } else {
                -1
            },
        },
    }
}

/// Computes `timeline_end`.
pub fn period_end_in_timescale(kind: StreamKind, duration: Option<XsDuration>, timescale: u64) -> (e: i128)
    ensures
        e == timeline_end(kind, duration, timescale),
{
    match duration {
        Some(d) => {
            let secs = d.secs as u128;
            let ts = timescale as u128;
            assert(secs * ts <= 0xffff_ffff_ffff_ffffu128 * 0xffff_ffff_ffff_ffffu128) by (nonlinear_arith)
                requires
                    secs <= 0xffff_ffff_ffff_ffffu128,
                    ts <= 0xffff_ffff_ffff_ffffu128,
            ;
            let whole: u128 = secs * ts;
            let nanos = d.nanos as u128;
            assert(nanos * ts <= 0xffff_ffffu128 * 0xffff_ffff_ffff_ffffu128) by (nonlinear_arith)
                requires
                    nanos <= 0xffff_ffffu128,
                    ts <= 0xffff_ffff_ffff_ffffu128,
            ;
            let part: u128 = nanos * ts / 1_000_000_000;
            if whole >= 0xffff_ffff_ffff_ffff {
                0xffff_ffff_ffff_ffff
            } else {
                let total = whole + part;
                if total > 0xffff_ffff_ffff_ffff {
                    0xffff_ffff_ffff_ffff
                } else {
                    total as i128
                }
            }
        },
        None => match kind {
            StreamKind::Video => 0,
            StreamKind::Audio => if timescale == 0 {
                0
            } else {
                -1
            },
        },
    }
}

/// The language of the selected audio stream: that of the Representation, else that of its
/// AdaptationSet, else "unk".
pub fn selected_language(r: &Representation, a: &AdaptationSet) -> (l: String)
    ensures
        l@ == match (r.lang, a.lang) {
            (Some(x), _) => x@,
            (None, Some(y)) => y@,
            (None, None) => "unk"@,
        },
{
    match (&r.lang, &a.lang) {
        (Some(x), _) => x.clone(),
        (None, Some(y)) => y.clone(),
        (None, None) => "unk".to_owned(),
    }
}

// ---------------------------------------------------------------------------------------------
// AdaptationSet>SegmentList

/// The Bandwidth template value of a Representation: its `@bandwidth` in decimal.
pub open spec fn bandwidth_value(r: Representation) -> Option<Seq<char>> {
    match r.bandwidth {
        Some(b) => Some(decimal(b as nat)),
        None => None,
    }
}

/// The initialization fragment of an AdaptationSet>SegmentList of a video stream: without an
/// Initialization element the base URL itself; with one, its `@sourceURL` (resolved and merged
/// into the base URL) and its range, and nothing when it has no `@sourceURL`.
pub open spec fn video_list_init(
    period: u8,
    base: Seq<char>,
    sl: SegmentList,
    representation_id: Option<Seq<char>>,
    bandwidth: Option<Seq<char>>,
) -> Result<Seq<FragmentView>, Seq<char>> {
    match sl.Initialization {
        None => Ok(seq![(period, base, None, None, true, None)]),
        Some(i) => match opt_range(i.range) {
            Err(e) => Err(e),
            Ok((s, e)) => match i.sourceURL {
                Some(su) => match spec_merge_baseurls(
                    base,
                    resolve_template_values(su@, representation_id, None, None, bandwidth),
                ) {
                    Ok(u) => Ok(seq![(period, u, s, e, true, None)]),
                    Err(x) => Err(x),
                },
                None => Ok(seq![]),
            },
        },
    }
}

/// The fragments of the AdaptationSet>SegmentList, if any, which come before those of the
/// Representation. For audio the SegmentList is read as that of a Representation; for video its
/// initialization fragment follows `video_list_init`. SegmentURL elements without `@media` fall
/// back on the first BaseURL of the AdaptationSet.
pub open spec fn adaptation_list_fragments(
    kind: StreamKind,
    period: u8,
    base: Seq<char>,
    a: AdaptationSet,
    r: Representation,
) -> Result<Seq<FragmentView>, Seq<char>> {
    let id = opt_view(r.id);
    let bw = bandwidth_value(r);
    match a.SegmentList {
        None => Ok(seq![]),
        Some(sl) => match kind {
            StreamKind::Audio => spec_segment_list_fragments(period, base, sl, id, bw, first_base(a.BaseURL@)),
            StreamKind::Video => match video_list_init(period, base, sl, id, bw) {
                Err(e) => Err(e),
                Ok(h) => match spec_segment_urls_fragments(period, base, sl.segment_urls@, first_base(a.BaseURL@)) {
                    Err(e) => Err(e),
                    Ok(fs) => Ok(h + fs),
                },
            },
        },
    }
}

/// The `@base` of the first BaseURL element, if any.
pub(crate) fn first_base_value(bs: &Vec<BaseURL>) -> (r: Option<String>)
    ensures
        opt_view(r) == first_base(bs@),
{
    if bs.len() > 0 {
        Some(bs[0].base.clone())
    } else {
        None
    }
}

fn video_list_init_fragments(
    period: u8,
    base_url: &str,
    sl: &SegmentList,
    params: &TemplateParams,
) -> (r: Result<Vec<MediaFragment>, DashMpdError>)
    requires
        params.number is None,
        params.time is None,
    ensures
        match video_list_init(period, base_url@, *sl, opt_view(params.representation_id), opt_view(params.bandwidth)) {
            Ok(fs) => r matches Ok(v) && fragment_views(v@) == fs,
            Err(e) => r matches Err(x) && reports(x, PlanError::Parsing(e)),
        },
{
    let mut fragments: Vec<MediaFragment> = Vec::new();
    match &sl.Initialization {
        None => {
            let f = MediaFragmentBuilder::new(period, base_url.to_owned()).set_init().build();
            fragments.push(f);
            assert(fragment_views(fragments@) =~= seq![fragment_view(f)]);
        },
        Some(init) => {
            let (s, e) = match range_of(&init.range) {
                Ok(p) => p,
                Err(x) => return Err(x),
            };
            match &init.sourceURL {
                Some(su) => {
                    let path = resolve_url_template(su.as_str(), params);
                    let u = match merge_baseurls(base_url, path.as_str()) {
                        Ok(u) => u,
                        Err(x) => return Err(x),
                    };
                    let f = MediaFragmentBuilder::new(period, u).with_range(s, e).set_init().build();
                    fragments.push(f);
                    assert(fragment_views(fragments@) =~= seq![fragment_view(f)]);
                },
                None => {
                    assert(fragment_views(fragments@) =~= seq![]);
                },
            }
        },
    }
    Ok(fragments)
}

/// The fragments of the AdaptationSet>SegmentList (see `adaptation_list_fragments`).
pub fn adaptation_list_fragments_of(
    kind: StreamKind,
    period: u8,
    base_url: &str,
    a: &AdaptationSet,
    r: &Representation,
) -> (f: Result<Vec<MediaFragment>, DashMpdError>)
    ensures
        match adaptation_list_fragments(kind, period, base_url@, *a, *r) {
            Ok(fs) => f matches Ok(v) && fragment_views(v@) == fs,
            Err(e) => f matches Err(x) && reports(x, PlanError::Parsing(e)),
        },
{
    let params = representation_params(r);
    let fallback = first_base_value(&a.BaseURL);
    match &a.SegmentList {
        None => {
            let v: Vec<MediaFragment> = Vec::new();
            assert(fragment_views(v@) =~= seq![]);
            Ok(v)
        },
        Some(sl) => match kind {
            StreamKind::Audio => segment_list_fragments(
                period,
                base_url,
                sl,
                &params.representation_id,
                &params.bandwidth,
                &fallback,
            ),
            StreamKind::Video => {
                let mut v = match video_list_init_fragments(period, base_url, sl, &params) {
                    Ok(v) => v,
                    Err(x) => return Err(x),
                };
                match append_segment_url_fragments(&mut v, period, base_url, &sl.segment_urls, &fallback) {
                    Ok(()) => Ok(v),
                    Err(x) => Err(x),
                }
            },
        },
    }
}

// ---------------------------------------------------------------------------------------------
// The plan

/// The plan when the fragments are all known: an error when there are none.
pub open spec fn complete(kind: StreamKind, fs: Seq<FragmentView>) -> Result<PlanView, PlanError> {
    if fs.len() == 0 {
        Err(PlanError::Unhandled(no_usable_mode_msg(kind)))
    } else {
        Ok(PlanView::Complete(fs))
    }
}

/// The fragments of a Representation, refused when there are none.
pub fn complete_fragments(kind: StreamKind, fragments: Vec<MediaFragment>) -> (r: Result<Vec<MediaFragment>, DashMpdError>)
    ensures
        match complete(kind, fragment_views(fragments@)) {
            Ok(_) => r == Ok::<Vec<MediaFragment>, DashMpdError>(fragments),
            Err(e) => r matches Err(x) && reports(x, e),
        },
{
    if fragments.len() == 0 {
        Err(no_usable_mode(kind))
    } else {
        Ok(fragments)
    }
}

pub(crate) fn concat_fragments(mut head: Vec<MediaFragment>, mut tail: Vec<MediaFragment>) -> (r: Vec<MediaFragment>)
    ensures
        fragment_views(r@) == fragment_views(head@) + fragment_views(tail@),
{
    let ghost h = head@;
    let ghost t = tail@;
    head.append(&mut tail);
    assert(fragment_views(head@) =~= fragment_views(h) + fragment_views(t));
    head
}

/// The SegmentTemplate that addresses a Representation: its own, else its AdaptationSet's.
pub open spec fn addressing_template(a: AdaptationSet, r: Representation) -> Option<SegmentTemplate> {
    match r.SegmentTemplate {
        Some(st) => Some(st),
        None => a.SegmentTemplate,
    }
}

/// The SegmentTimeline of a Representation: that of its own SegmentTemplate, else that of its
/// AdaptationSet's.
pub open spec fn addressing_timeline(a: AdaptationSet, r: Representation) -> Option<SegmentTimeline> {
    match r.SegmentTemplate {
        Some(st) if st.SegmentTimeline is Some => st.SegmentTimeline,
        _ => match a.SegmentTemplate {
            Some(st) => st.SegmentTimeline,
            None => None,
        },
    }
}

/// The SegmentTemplate settings of the Period's and the AdaptationSet's SegmentTemplate, in that
/// order.
pub open spec fn enclosing_settings(pt: Option<SegmentTemplate>, a: AdaptationSet) -> SettingsView {
    let s0 = match pt {
        Some(st) => inherited_settings(initial_settings(), st),
        None => initial_settings(),
    };
    match a.SegmentTemplate {
        Some(st) => inherited_settings(s0, st),
        None => s0,
    }
}

/// The settings that apply to the addressing SegmentTemplate `st`.
pub open spec fn template_settings(pt: Option<SegmentTemplate>, a: AdaptationSet, st: SegmentTemplate) -> SettingsView {
    applied_settings(enclosing_settings(pt, a), st)
}

/// SegmentTemplate with SegmentTimeline: the initialization segment, then the segments of the
/// timeline; a media template is needed.
pub open spec fn timeline_plan(
    kind: StreamKind,
    period: u8,
    base: Seq<char>,
    s: SettingsView,
    tl: SegmentTimeline,
    id: Option<Seq<char>>,
    bw: Option<Seq<char>>,
    head: Seq<FragmentView>,
    duration: Option<XsDuration>,
    forced: bool,
) -> Result<PlanView, PlanError> {
    match spec_template_fragments(period, base, s.initialization, id, bw, seq![]) {
        Err(e) => Err(PlanError::Parsing(e)),
        Ok(_) => match s.media {
            None => Err(PlanError::Unhandled(timeline_without_media_msg())),
            Some(m) => match spec_template_fragments(
                period,
                base,
                s.initialization,
                id,
                bw,
                slot_paths(
                    resolve_template_values(m, id, None, None, bw),
                    timeline(tl.segments@, s.start_number as int, timeline_end(kind, duration, s.timescale), forced).0,
                ),
            ) {
                Err(e) => Err(PlanError::Parsing(e)),
                Ok(fs) => complete(kind, head + fs),
            },
        },
    }
}

/// SegmentTemplate without SegmentTimeline: the initialization segment, then (when there is a
/// media template) numbered segments, whose duration is that of the addressing template (which
/// needs a non-zero timescale), else the inherited one.
pub open spec fn numbered_plan(
    kind: StreamKind,
    period: u8,
    base: Seq<char>,
    s: SettingsView,
    st: SegmentTemplate,
    id: Option<Seq<char>>,
    bw: Option<Seq<char>>,
    head: Seq<FragmentView>,
) -> Result<PlanView, PlanError> {
    match spec_template_fragments(period, base, s.initialization, id, bw, seq![]) {
        Err(e) => Err(PlanError::Parsing(e)),
        Ok(i) => match s.media {
            None => complete(kind, head + i),
            Some(m) => {
                let media = resolve_template_values(m, id, None, None, bw);
                match st.duration {
                    Some(d) => if s.timescale == 0 {
                        Err(PlanError::Unhandled(zero_timescale_msg()))
                    } else {
                        Ok(PlanView::Numbered(head + i, base, media, s.start_number, SegmentDuration::PerTimescale(d, s.timescale)))
                    },
                    None => match s.duration {
                        Some(d) => Ok(PlanView::Numbered(head + i, base, media, s.start_number, SegmentDuration::Seconds(d))),
                        None => Err(PlanError::Unhandled(missing_duration_msg(kind))),
                    },
                }
            },
        },
    }
}

/// The timeout of a fragment addressed by a plain BaseURL: 10000 seconds for video, none for
/// audio.
pub open spec fn base_url_timeout(kind: StreamKind) -> Option<XsDuration> {
    match kind {
        StreamKind::Video => Some(XsDuration { secs: 10000, nanos: 0 }),
        StreamKind::Audio => None,
    }
}

/// The plan for the Representation `r` of the AdaptationSet `a`, in the Period numbered `period`
/// whose base URL is `base` and whose SegmentTemplate is `pt`; `duration` is the duration of the
/// Period, and `forced` says whether it was forced by the user.
pub open spec fn spec_plan(
    kind: StreamKind,
    period: u8,
    base: Seq<char>,
    pt: Option<SegmentTemplate>,
    a: AdaptationSet,
    r: Representation,
    duration: Option<XsDuration>,
    forced: bool,
) -> Result<PlanView, PlanError> {
    let id = opt_view(r.id);
    let bw = bandwidth_value(r);
    match stream_base(base, a, r) {
        Err(e) => Err(PlanError::Parsing(e)),
        Ok(b) => match adaptation_list_fragments(kind, period, b, a, r) {
            Err(e) => Err(PlanError::Parsing(e)),
            Ok(h) => match r.SegmentList {
                Some(sl) => match spec_segment_list_fragments(period, b, sl, id, bw, first_base(r.BaseURL@)) {
                    Err(e) => Err(PlanError::Parsing(e)),
                    Ok(fs) => complete(kind, h + fs),
                },
                None => match addressing_template(a, r) {
                    Some(st) => {
                        let s = template_settings(pt, a, st);
                        match addressing_timeline(a, r) {
                            Some(tl) => timeline_plan(kind, period, b, s, tl, id, bw, h, duration, forced),
                            None => numbered_plan(kind, period, b, s, st, id, bw, h),
                        }
                    },
                    None => if r.SegmentBase is Some {
                        Ok(PlanView::IndexRange(h, b))
                    } else if h.len() == 0 && r.BaseURL@.len() > 0 {
                        match spec_merge_baseurls(b, r.BaseURL@[0].base@) {
                            Err(e) => Err(PlanError::Parsing(e)),
                            Ok(u) => complete(kind, seq![(period, u, None, None, false, base_url_timeout(kind))]),
                        }
                    } else {
                        complete(kind, h)
                    },
                },
            },
        },
    }
}

/// Expanding the SegmentTimeline, where the plan comes to it, neither overflows a `u64` nor
/// repeats a segment of zero duration forever.
pub open spec fn plan_fits(
    kind: StreamKind,
    period: u8,
    base: Seq<char>,
    pt: Option<SegmentTemplate>,
    a: AdaptationSet,
    r: Representation,
    duration: Option<XsDuration>,
    forced: bool,
) -> bool {
    let id = opt_view(r.id);
    let bw = bandwidth_value(r);
    match stream_base(base, a, r) {
        Err(_) => true,
        Ok(b) => match adaptation_list_fragments(kind, period, b, a, r) {
            Err(_) => true,
            Ok(_) => match (r.SegmentList, addressing_template(a, r), addressing_timeline(a, r)) {
                (None, Some(st), Some(tl)) => {
                    let s = template_settings(pt, a, st);
                    (spec_template_fragments(period, b, s.initialization, id, bw, seq![]) is Ok && s.media is Some)
                        ==> timeline_ok(tl.segments@, s.start_number as int, timeline_end(kind, duration, s.timescale), forced)
                },
                _ => true,
            },
        },
    }
}

/// Appends a plain fragment for each path merged into the base URL, or stops at the first path
/// that cannot be merged.
pub fn append_plain_fragments(
    fragments: &mut Vec<MediaFragment>,
    period: u8,
    base_url: &str,
    paths: &Vec<String>,
) -> (r: Result<(), DashMpdError>)
    ensures
        match spec_merge_all(base_url@, views(paths@)) {
            Ok(us) => r is Ok && fragment_views(final(fragments)@) == fragment_views(old(fragments)@)
                + us.map_values(|u: Seq<char>| plain_fragment(period, u)),
            Err(e) => r matches Err(x) && reports(x, PlanError::Parsing(e)),
        },
{
    let urls = match merge_all(base_url, paths) {
        Ok(us) => us,
        Err(e) => return Err(e),
    };
    let ghost head = fragment_views(fragments@);
    let ghost us = views(urls@);
    let mut k: usize = 0;
    assert(fragment_views(fragments@) =~= head + us.take(0).map_values(|u: Seq<char>| plain_fragment(period, u)));
    while k < urls.len()
        invariant
            k <= urls.len(),
            us == views(urls@),
            fragment_views(fragments@) == head + us.take(k as int).map_values(
                |u: Seq<char>| plain_fragment(period, u),
            ),
        decreases urls.len() - k,
    {
        let f = MediaFragmentBuilder::new(period, urls[k].clone()).build();
        let ghost before = fragments@;
        fragments.push(f);
        assert(fragment_views(fragments@) =~= fragment_views(before).push(fragment_view(f)));
        assert(us.take(k + 1).map_values(|u: Seq<char>| plain_fragment(period, u)) =~= us.take(
            k as int,
        ).map_values(|u: Seq<char>| plain_fragment(period, u)).push(plain_fragment(period, us[k as int])));
        k = k + 1;
    }
    assert(us.take(urls.len() as int) =~= us);
    Ok(())
}

/// The initialization fragment of a SegmentTemplate, if any.
pub(crate) fn template_init_fragments(
    period: u8,
    base_url: &str,
    s: &TemplateSettings,
    params: &TemplateParams,
) -> (r: Result<Vec<MediaFragment>, DashMpdError>)
    ensures
        match spec_template_fragments(
            period,
            base_url@,
            s@.initialization,
            opt_view(params.representation_id),
            opt_view(params.bandwidth),
            seq![],
        ) {
            Ok(fs) => r matches Ok(v) && fragment_views(v@) == fs,
            Err(e) => r matches Err(x) && reports(x, PlanError::Parsing(e)),
        },
{
    let empty: Vec<String> = Vec::new();
    assert(views(empty@) =~= seq![]);
    template_fragments(period, base_url, &s.initialization, &params.representation_id, &params.bandwidth, &empty)
}

pub(crate) proof fn lemma_template_fragments_split(
    period: u8,
    base: Seq<char>,
    init: Option<Seq<char>>,
    id: Option<Seq<char>>,
    bw: Option<Seq<char>>,
    paths: Seq<Seq<char>>,
)
    ensures
        spec_template_fragments(period, base, init, id, bw, seq![]) matches Ok(i) ==> spec_template_fragments(
            period,
            base,
            init,
            id,
            bw,
            paths,
        ) == match spec_merge_all(base, paths) {
            Ok(us) => Ok::<Seq<FragmentView>, Seq<char>>(i + us.map_values(|u: Seq<char>| plain_fragment(period, u))),
            Err(e) => Err(e),
        },
{
    if spec_template_fragments(period, base, init, id, bw, seq![]) is Ok {
        assert(spec_merge_all(base, seq![]) == Ok::<Seq<Seq<char>>, Seq<char>>(seq![]));
        let i = spec_template_fragments(period, base, init, id, bw, seq![])->Ok_0;
        assert(seq![].map_values(|u: Seq<char>| plain_fragment(period, u)) =~= seq![]);
        assert(i + seq![].map_values(|u: Seq<char>| plain_fragment(period, u)) =~= i);
    }
}

fn timeline_plan_of(
    kind: StreamKind,
    period: u8,
    base_url: &str,
    s: &TemplateSettings,
    tl: &SegmentTimeline,
    params: &TemplateParams,
    head: Vec<MediaFragment>,
    duration: Option<XsDuration>,
    forced: bool,
) -> (p: Result<AddressingPlan, DashMpdError>)
    requires
        params.number is None,
        params.time is None,
        (spec_template_fragments(
            period,
            base_url@,
            s@.initialization,
            opt_view(params.representation_id),
            opt_view(params.bandwidth),
            seq![],
        ) is Ok && s@.media is Some) ==> timeline_ok(
            tl.segments@,
            s.start_number as int,
            timeline_end(kind, duration, s.timescale),
            forced,
        ),
    ensures
        match timeline_plan(
            kind,
            period,
            base_url@,
            s@,
            *tl,
            opt_view(params.representation_id),
            opt_view(params.bandwidth),
            fragment_views(head@),
            duration,
            forced,
        ) {
            Ok(v) => p matches Ok(x) && plan_view(x) == v,
            Err(e) => p matches Err(x) && reports(x, e),
        },
{
    let mut fs = match template_init_fragments(period, base_url, s, params) {
        Ok(v) => v,
        Err(x) => return Err(x),
    };
    match &s.media {
        None => Err(DashMpdError::UnhandledMediaStream("SegmentTimeline without a media attribute".to_owned())),
        Some(m) => {
            let end = period_end_in_timescale(kind, duration, s.timescale);
            let paths = timeline_segment_paths(
                m.as_str(),
                &params.representation_id,
                &params.bandwidth,
                &tl.segments,
                s.start_number,
                end,
                forced,
            );
            proof {
                lemma_template_fragments_split(
                    period,
                    base_url@,
                    s@.initialization,
                    opt_view(params.representation_id),
                    opt_view(params.bandwidth),
                    views(paths@),
                );
            }
            match append_plain_fragments(&mut fs, period, base_url, &paths) {
                Err(x) => Err(x),
                Ok(()) => {
                    let all = concat_fragments(head, fs);
                    match complete_fragments(kind, all) {
                        Ok(v) => Ok(AddressingPlan::Complete(v)),
                        Err(x) => Err(x),
                    }
                },
            }
        },
    }
}

fn numbered_plan_of(
    kind: StreamKind,
    period: u8,
    base_url: &str,
    s: &TemplateSettings,
    st: &SegmentTemplate,
    params: &TemplateParams,
    head: Vec<MediaFragment>,
) -> (p: Result<AddressingPlan, DashMpdError>)
    requires
        params.number is None,
        params.time is None,
    ensures
        match numbered_plan(
            kind,
            period,
            base_url@,
            s@,
            *st,
            opt_view(params.representation_id),
            opt_view(params.bandwidth),
            fragment_views(head@),
        ) {
            Ok(v) => p matches Ok(x) && plan_view(x) == v,
            Err(e) => p matches Err(x) && reports(x, e),
        },
{
    let fs = match template_init_fragments(period, base_url, s, params) {
        Ok(v) => v,
        Err(x) => return Err(x),
    };
    let fragments = concat_fragments(head, fs);
    match &s.media {
        None => match complete_fragments(kind, fragments) {
            Ok(v) => Ok(AddressingPlan::Complete(v)),
            Err(x) => Err(x),
        },
        Some(m) => {
            let media = resolve_url_template(m.as_str(), params);
            let duration = match st.duration {
                Some(d) => {
                    if s.timescale == 0 {
                        return Err(DashMpdError::UnhandledMediaStream(
                            "SegmentTemplate@duration attribute cannot be zero".to_owned(),
                        ));
                    }
                    SegmentDuration::PerTimescale(d, s.timescale)
                },
                None => match s.duration {
                    Some(d) => SegmentDuration::Seconds(d),
                    None => return Err(missing_duration(kind)),
                },
            };
            Ok(AddressingPlan::Numbered {
                fragments,
                base_url: base_url.to_owned(),
                media,
                start_number: s.start_number,
                duration,
            })
        },
    }
}

/// The settings of the Period's and the AdaptationSet's SegmentTemplate, then of the addressing
/// SegmentTemplate `st`.
fn settings_for(pt: &Option<SegmentTemplate>, a: &AdaptationSet, st: &SegmentTemplate) -> (s: TemplateSettings)
    ensures
        s@ == template_settings(*pt, *a, *st),
{
    let mut s = TemplateSettings::new();
    if let Some(pst) = pt {
        s = s.inherit(pst);
    }
    if let Some(ast) = &a.SegmentTemplate {
        s = s.inherit(ast);
    }
    s.apply(st)
}

/// The addressing plan of the Representation `r` of the AdaptationSet `a` of an audio or video
/// stream (see `spec_plan`): `period` numbers the Period, `base_url` is its base URL,
/// `period_template` its SegmentTemplate, `period_duration` its duration (that of the manifest
/// when the Period has none, or the one forced by the user, as `forced` says).
pub fn representation_plan(
    kind: StreamKind,
    period: u8,
    base_url: &str,
    period_template: &Option<SegmentTemplate>,
    a: &AdaptationSet,
    r: &Representation,
    period_duration: Option<XsDuration>,
    forced: bool,
) -> (p: Result<AddressingPlan, DashMpdError>)
    requires
        plan_fits(kind, period, base_url@, *period_template, *a, *r, period_duration, forced),
    ensures
        match spec_plan(kind, period, base_url@, *period_template, *a, *r, period_duration, forced) {
            Ok(v) => p matches Ok(x) && plan_view(x) == v,
            Err(e) => p matches Err(x) && reports(x, e),
        },
{
    let b = match stream_base_url(base_url, a, r) {
        Ok(b) => b,
        Err(x) => return Err(x),
    };
    let head = match adaptation_list_fragments_of(kind, period, b.as_str(), a, r) {
        Ok(v) => v,
        Err(x) => return Err(x),
    };
    let params = representation_params(r);
    if let Some(sl) = &r.SegmentList {
        let fallback = first_base_value(&r.BaseURL);
        let fs = match segment_list_fragments(period, b.as_str(), sl, &params.representation_id, &params.bandwidth, &fallback) {
            Ok(v) => v,
            Err(x) => return Err(x),
        };
        return match complete_fragments(kind, concat_fragments(head, fs)) {
            Ok(v) => Ok(AddressingPlan::Complete(v)),
            Err(x) => Err(x),
        };
    }
    match representation_template(r, a) {
        Some(st) => {
            let s = settings_for(period_template, a, st);
            match representation_timeline(r, a) {
                Some(tl) => timeline_plan_of(kind, period, b.as_str(), &s, tl, &params, head, period_duration, forced),
                None => numbered_plan_of(kind, period, b.as_str(), &s, st, &params, head),
            }
        },
        None => {
            if r.SegmentBase.is_some() {
                Ok(AddressingPlan::IndexRange { fragments: head, base_url: b })
            } else if head.len() == 0 && r.BaseURL.len() > 0 {
                let u = match merge_baseurls(b.as_str(), r.BaseURL[0].base.as_str()) {
                    Ok(u) => u,
                    Err(x) => return Err(x),
                };
                let builder = MediaFragmentBuilder::new(period, u);
                let builder = match kind {
                    StreamKind::Video => builder.with_timeout(XsDuration { secs: 10000, nanos: 0 }),
                    StreamKind::Audio => builder,
                };
                let f = builder.build();
                let v = vec![f];
                assert(fragment_views(v@) =~= seq![fragment_view(f)]);
                Ok(AddressingPlan::Complete(v))
            } else {
                match complete_fragments(kind, head) {
                    Ok(v) => Ok(AddressingPlan::Complete(v)),
                    Err(x) => Err(x),
                }
            }
        },
    }
}

/// Whether the addressing plan of a Representation can be made without overflowing (see
/// `plan_fits`): a caller tests this before calling `representation_plan`.
pub fn plan_fits_check(
    kind: StreamKind,
    period: u8,
    base_url: &str,
    period_template: &Option<SegmentTemplate>,
    a: &AdaptationSet,
    r: &Representation,
    period_duration: Option<XsDuration>,
    forced: bool,
) -> (ok: bool)
    ensures
        ok == plan_fits(kind, period, base_url@, *period_template, *a, *r, period_duration, forced),
{
    let b = match stream_base_url(base_url, a, r) {
        Ok(b) => b,
        Err(_) => return true,
    };
    match adaptation_list_fragments_of(kind, period, b.as_str(), a, r) {
        Ok(_) => {},
        Err(_) => return true,
    }
    if r.SegmentList.is_some() {
        return true;
    }
    match (representation_template(r, a), representation_timeline(r, a)) {
        (Some(st), Some(tl)) => {
            let s = settings_for(period_template, a, st);
            let params = representation_params(r);
            let init_ok = match template_init_fragments(period, b.as_str(), &s, &params) {
                Ok(_) => true,
                Err(_) => false,
            };
            if !(init_ok && s.media.is_some()) {
                return true;
            }
            let end = period_end_in_timescale(kind, period_duration, s.timescale);
            timeline_fits(&tl.segments, s.start_number, end, forced)
        },
        _ => true,
    }
}

/// The addressing plan of a Representation (see `representation_plan`) when it can be made
/// without overflowing, none otherwise.
pub fn checked_representation_plan(
    kind: StreamKind,
    period: u8,
    base_url: &str,
    period_template: &Option<SegmentTemplate>,
    a: &AdaptationSet,
    r: &Representation,
    period_duration: Option<XsDuration>,
    forced: bool,
) -> (p: Option<Result<AddressingPlan, DashMpdError>>)
    ensures
        p is None <==> !plan_fits(kind, period, base_url@, *period_template, *a, *r, period_duration, forced),
        p matches Some(q) ==> match spec_plan(kind, period, base_url@, *period_template, *a, *r, period_duration, forced) {
            Ok(v) => q matches Ok(x) && plan_view(x) == v,
            Err(e) => q matches Err(x) && reports(x, e),
        },
{
    if plan_fits_check(kind, period, base_url, period_template, a, r, period_duration, forced) {
        Some(representation_plan(kind, period, base_url, period_template, a, r, period_duration, forced))
    } else {
        None
    }
}

/// The paths of `count` segments numbered consecutively from `first`, by the media template.
pub open spec fn numbered_paths(media: Seq<char>, first: int, count: nat) -> Seq<Seq<char>> {
    Seq::new(count, |k: int| numbered_path(media, first + k))
}

/// The SegmentTemplate@duration paths are numbered consecutively from the first number: with the
/// media template `pre + "$Number$" + suf`, there are `count` paths and the `k`-th is
/// `pre + decimal(first + k) + suf`.
pub proof fn lemma_numbered_paths_consecutive(pre: Seq<char>, suf: Seq<char>, first: int, count: nat)
    requires
        crate::template::lacks_char(pre, '$'),
        crate::template::lacks_char(suf, '$'),
        first >= 0,
    ensures
        numbered_paths(crate::template::number_template(pre, suf), first, count).len() == count,
        forall|k: int|
            0 <= k < count ==> #[trigger] numbered_paths(crate::template::number_template(pre, suf), first, count)[k]
                == pre + decimal((first + k) as nat) + suf,
{
    assert forall|k: int| 0 <= k < count implies #[trigger] numbered_paths(
        crate::template::number_template(pre, suf),
        first,
        count,
    )[k] == pre + decimal((first + k) as nat) + suf by {
        lemma_numbered_path_number(pre, suf, first + k);
    }
}

/// The fragments of a SegmentTemplate@duration plan once the number of the first segment and the
/// number of segments are known: `fragments`, then a plain fragment per numbered segment, merged
/// into the base URL; refused when there are no fragments at all.
pub open spec fn spec_numbered_fragments(
    kind: StreamKind,
    period: u8,
    fragments: Seq<FragmentView>,
    base: Seq<char>,
    media: Seq<char>,
    first: int,
    count: nat,
) -> Result<Seq<FragmentView>, PlanError> {
    match spec_merge_all(base, numbered_paths(media, first, count)) {
        Err(e) => Err(PlanError::Parsing(e)),
        Ok(us) => {
            let all = fragments + us.map_values(|u: Seq<char>| plain_fragment(period, u));
            if all.len() == 0 {
                Err(PlanError::Unhandled(no_usable_mode_msg(kind)))
            } else {
                Ok(all)
            }
        },
    }
}

/// Appends to `fragments` a plain fragment for each of `count` segments numbered from
/// `first_number` by the media template, merged into the base URL; stops at the first path that
/// cannot be merged.
pub fn append_numbered_fragments(
    fragments: &mut Vec<MediaFragment>,
    period: u8,
    base_url: &str,
    media: &str,
    first_number: u64,
    count: u64,
) -> (r: Result<(), DashMpdError>)
    requires
        first_number + count <= u64::MAX,
    ensures
        match spec_merge_all(base_url@, numbered_paths(media@, first_number as int, count as nat)) {
            Ok(us) => r is Ok && fragment_views(final(fragments)@) == fragment_views(old(fragments)@)
                + us.map_values(|u: Seq<char>| plain_fragment(period, u)),
            Err(e) => r matches Err(x) && reports(x, PlanError::Parsing(e)),
        },
{
    let none: Option<String> = None;
    let paths = numbered_segment_paths(media, &none, &none, first_number, count);
    assert(resolve_template_values(media@, None, None, None, None) == media@);
    assert(views(paths@) =~= numbered_paths(media@, first_number as int, count as nat));
    append_plain_fragments(fragments, period, base_url, &paths)
}

/// Completes a SegmentTemplate@duration plan with `count` segments numbered from `first_number`
/// (see `spec_numbered_fragments`).
pub fn numbered_fragments(
    kind: StreamKind,
    period: u8,
    fragments: Vec<MediaFragment>,
    base_url: &str,
    media: &str,
    first_number: u64,
    count: u64,
) -> (r: Result<Vec<MediaFragment>, DashMpdError>)
    requires
        first_number + count <= u64::MAX,
    ensures
        match spec_numbered_fragments(
            kind,
            period,
            fragment_views(fragments@),
            base_url@,
            media@,
            first_number as int,
            count as nat,
        ) {
            Ok(fs) => r matches Ok(v) && fragment_views(v@) == fs,
            Err(e) => r matches Err(x) && reports(x, e),
        },
{
    let mut all = fragments;
    match append_numbered_fragments(&mut all, period, base_url, media, first_number, count) {
        Err(x) => Err(x),
        Ok(()) => complete_fragments(kind, all),
    }
}

// ---------------------------------------------------------------------------------------------
// SegmentBase@indexRange

/// The byte range of the index to fetch for a SegmentBase: its `@indexRange`, when index ranges
/// are used; an `@indexRange` that does not parse is an error.
pub fn index_range_to_fetch(use_index_range: bool, sb: &SegmentBase) -> (r: Result<Option<(u64, u64)>, DashMpdError>)
    ensures
        !use_index_range || sb.indexRange is None ==> r == Ok::<Option<(u64, u64)>, DashMpdError>(None),
        use_index_range && sb.indexRange is Some ==> match range_fields(sb.indexRange->0@) {
            Some((s, e)) => r == Ok::<Option<(u64, u64)>, DashMpdError>(Some((s, e))),
            None => r matches Err(x) && reports(x, PlanError::Parsing(range_error_msg(sb.indexRange->0@))),
        },
{
    if !use_index_range {
        return Ok(None);
    }
    match range_of(&sb.indexRange) {
        Ok((Some(s), Some(e))) => Ok(Some((s, e))),
        Ok(_) => Ok(None),
        Err(x) => Err(x),
    }
}

/// The index fetched for the byte range `start`-`end` can be used: the server sent a content
/// type, MP4 audio or video, and exactly the bytes of the range.
pub fn index_response_usable(received: u64, start: u64, end: u64, content_type: &Option<String>) -> (r: bool)
    requires
        start <= end,
        end - start < u64::MAX,
    ensures
        r == (content_type matches Some(ct) && received == end - start + 1 && (ct@ == "video/mp4"@ || ct@
            == "audio/mp4"@)),
{
    match content_type {
        None => false,
        Some(ct) => received == end - start + 1 && (str_eq(ct.as_str(), "video/mp4") || str_eq(ct.as_str(), "audio/mp4")),
    }
}

/// The fragments of a Representation addressed by a SegmentBase, once its index was (or could
/// not be) read. With an index ending at byte `e` whose segments span the byte ranges `chunks`:
/// the bytes up to the end of the index, then each segment, then the initialization fragment of
/// the SegmentBase. Without one: the whole media at the base URL, with a timeout of 10000
/// seconds.
pub open spec fn spec_segment_base_fragments(
    period: u8,
    base: Seq<char>,
    init: Option<crate::mpd::Initialization>,
    id: Option<Seq<char>>,
    bw: Option<Seq<char>>,
    index: Option<(u64, Seq<(u64, u64)>)>,
) -> Result<Seq<FragmentView>, Seq<char>> {
    match index {
        None => Ok(seq![(period, base, None, None, false, Some(XsDuration { secs: 10000, nanos: 0 }))]),
        Some((e, chunks)) => match spec_list_init_fragment(period, base, init, id, bw) {
            Err(x) => Err(x),
            Ok(i) => Ok(seq![(period, base, Some(0u64), Some(e), false, None)] + chunks.map_values(
                |c: (u64, u64)| (period, base, Some(c.0), Some(c.1), false, None),
            ) + i),
        },
    }
}

/// The fragments of a Representation addressed by a SegmentBase (see
/// `spec_segment_base_fragments`); `index` holds the end of the index and the byte ranges of the
/// segments it lists, when it could be fetched and parsed.
pub fn segment_base_fragments(
    period: u8,
    base_url: &str,
    sb: &SegmentBase,
    params: &TemplateParams,
    index: &Option<(u64, Vec<(u64, u64)>)>,
) -> (r: Result<Vec<MediaFragment>, DashMpdError>)
    ensures
        match spec_segment_base_fragments(
            period,
            base_url@,
            sb.Initialization,
            opt_view(params.representation_id),
            opt_view(params.bandwidth),
            match index {
                Some((e, cs)) => Some((*e, cs@)),
                None => None,
            },
        ) {
            Ok(fs) => r matches Ok(v) && fragment_views(v@) == fs,
            Err(m) => r matches Err(x) && reports(x, PlanError::Parsing(m)),
        },
{
    let mut fragments: Vec<MediaFragment> = Vec::new();
    match index {
        None => {
            let f = MediaFragmentBuilder::new(period, base_url.to_owned())
                .with_timeout(XsDuration { secs: 10000, nanos: 0 })
                .build();
            fragments.push(f);
            assert(fragment_views(fragments@) =~= seq![fragment_view(f)]);
            Ok(fragments)
        },
        Some((e, chunks)) => {
            let init = match list_init_fragments(
                period,
                base_url,
                &sb.Initialization,
                &params.representation_id,
                &params.bandwidth,
            ) {
                Ok(v) => v,
                Err(x) => return Err(x),
            };
            let f = MediaFragmentBuilder::new(period, base_url.to_owned()).with_range(Some(0), Some(*e)).build();
            fragments.push(f);
            let ghost cs = chunks@;
            let ghost chunk_view = |c: (u64, u64)| (period, base_url@, Some(c.0), Some(c.1), false, None::<XsDuration>);
            assert(fragment_views(fragments@) =~= seq![fragment_view(f)] + cs.take(0).map_values(chunk_view));
            let mut k: usize = 0;
            while k < chunks.len()
                invariant
                    k <= chunks.len(),
                    cs == chunks@,
                    chunk_view == (|c: (u64, u64)| (period, base_url@, Some(c.0), Some(c.1), false, None::<XsDuration>)),
                    fragment_views(fragments@) == seq![fragment_view(f)] + cs.take(k as int).map_values(chunk_view),
                decreases chunks.len() - k,
            {
                let (cs_start, cs_end) = chunks[k];
                let g = MediaFragmentBuilder::new(period, base_url.to_owned())
                    .with_range(Some(cs_start), Some(cs_end))
                    .build();
                let ghost before = fragments@;
                fragments.push(g);
                assert(fragment_views(fragments@) =~= fragment_views(before).push(fragment_view(g)));
                assert(cs.take(k + 1).map_values(chunk_view) =~= cs.take(k as int).map_values(chunk_view).push(
                    chunk_view(cs[k as int]),
                ));
                k = k + 1;
            }
            assert(cs.take(chunks.len() as int) =~= cs);
            Ok(concat_fragments(fragments, init))
        },
    }
}

// ---------------------------------------------------------------------------------------------
// Every fragment belongs to the Period it was planned for

/// Every fragment is one of the Period numbered `period`.
pub open spec fn all_in_period(fs: Seq<FragmentView>, period: u8) -> bool {
    forall|i: int| 0 <= i < fs.len() ==> (#[trigger] fs[i]).0 == period
}

/// The fragments that a plan already holds.
pub open spec fn planned_fragments(p: PlanView) -> Seq<FragmentView> {
    match p {
        PlanView::Complete(fs) => fs,
        PlanView::IndexRange(fs, _) => fs,
        PlanView::Numbered(fs, _, _, _, _) => fs,
    }
}

pub(crate) proof fn lemma_concat_in_period(a: Seq<FragmentView>, b: Seq<FragmentView>, period: u8)
    requires
        all_in_period(a, period),
        all_in_period(b, period),
    ensures
        all_in_period(a + b, period),
{
    assert forall|i: int| 0 <= i < (a + b).len() implies (#[trigger] (a + b)[i]).0 == period by {
        if i < a.len() {
            assert((a + b)[i] == a[i]);
        } else {
            assert((a + b)[i] == b[i - a.len()]);
        }
    }
}

proof fn lemma_plain_in_period(us: Seq<Seq<char>>, period: u8)
    ensures
        all_in_period(us.map_values(|u: Seq<char>| plain_fragment(period, u)), period),
{
}

proof fn lemma_segment_urls_in_period(period: u8, base: Seq<char>, sus: Seq<crate::mpd::SegmentURL>, fallback: Option<Seq<char>>)
    ensures
        spec_segment_urls_fragments(period, base, sus, fallback) matches Ok(fs) ==> all_in_period(fs, period),
    decreases sus.len(),
{
    if sus.len() > 0 {
        lemma_segment_urls_in_period(period, base, sus.drop_last(), fallback);
        if let Ok(fs) = spec_segment_urls_fragments(period, base, sus.drop_last(), fallback) {
            if let Ok(f) = crate::fragments::spec_segment_url_fragment(period, base, sus.last(), fallback) {
                lemma_concat_in_period(fs, f, period);
            }
        }
    }
}

pub(crate) proof fn lemma_segment_list_in_period(
    period: u8,
    base: Seq<char>,
    sl: SegmentList,
    id: Option<Seq<char>>,
    bw: Option<Seq<char>>,
    fallback: Option<Seq<char>>,
)
    ensures
        spec_segment_list_fragments(period, base, sl, id, bw, fallback) matches Ok(fs) ==> all_in_period(fs, period),
{
    lemma_segment_urls_in_period(period, base, sl.segment_urls@, fallback);
    if let Ok(h) = spec_list_init_fragment(period, base, sl.Initialization, id, bw) {
        if let Ok(fs) = spec_segment_urls_fragments(period, base, sl.segment_urls@, fallback) {
            lemma_concat_in_period(h, fs, period);
        }
    }
}

pub(crate) proof fn lemma_template_in_period(
    period: u8,
    base: Seq<char>,
    init: Option<Seq<char>>,
    id: Option<Seq<char>>,
    bw: Option<Seq<char>>,
    paths: Seq<Seq<char>>,
)
    ensures
        spec_template_fragments(period, base, init, id, bw, paths) matches Ok(fs) ==> all_in_period(fs, period),
{
    if let Ok(us) = spec_merge_all(base, paths) {
        lemma_plain_in_period(us, period);
        match init {
            None => {
                lemma_concat_in_period(seq![], us.map_values(|u: Seq<char>| plain_fragment(period, u)), period);
            },
            Some(i) => {
                if let Ok(u) = spec_merge_baseurls(base, resolve_template_values(i, id, None, None, bw)) {
                    lemma_concat_in_period(
                        seq![(period, u, None, None, true, None)],
                        us.map_values(|u: Seq<char>| plain_fragment(period, u)),
                        period,
                    );
                }
            },
        }
    }
}

/// The fragments of every addressing plan are all fragments of the Period the plan was made
/// for: the segments of different Periods are never mixed.
pub proof fn lemma_plan_fragments_in_period(
    kind: StreamKind,
    period: u8,
    base: Seq<char>,
    pt: Option<SegmentTemplate>,
    a: AdaptationSet,
    r: Representation,
    duration: Option<XsDuration>,
    forced: bool,
)
    ensures
        spec_plan(kind, period, base, pt, a, r, duration, forced) matches Ok(v) ==> all_in_period(
            planned_fragments(v),
            period,
        ),
{
    let id = opt_view(r.id);
    let bw = bandwidth_value(r);
    if let Ok(b) = stream_base(base, a, r) {
        if let Some(sl) = a.SegmentList {
            lemma_segment_list_in_period(period, b, sl, id, bw, first_base(a.BaseURL@));
            lemma_segment_urls_in_period(period, b, sl.segment_urls@, first_base(a.BaseURL@));
            if let Ok(h) = video_list_init(period, b, sl, id, bw) {
                if let Ok(fs) = spec_segment_urls_fragments(period, b, sl.segment_urls@, first_base(a.BaseURL@)) {
                    lemma_concat_in_period(h, fs, period);
                }
            }
        }
        if let Ok(h) = adaptation_list_fragments(kind, period, b, a, r) {
            match r.SegmentList {
                Some(sl) => {
                    lemma_segment_list_in_period(period, b, sl, id, bw, first_base(r.BaseURL@));
                    if let Ok(fs) = spec_segment_list_fragments(period, b, sl, id, bw, first_base(r.BaseURL@)) {
                        lemma_concat_in_period(h, fs, period);
                    }
                },
                None => match addressing_template(a, r) {
                    Some(st) => {
                        let s = template_settings(pt, a, st);
                        lemma_template_in_period(period, b, s.initialization, id, bw, seq![]);
                        if let Ok(i) = spec_template_fragments(period, b, s.initialization, id, bw, seq![]) {
                            lemma_concat_in_period(h, i, period);
                        }
                        if let (Some(tl), Some(m)) = (addressing_timeline(a, r), s.media) {
                            let paths = slot_paths(
                                resolve_template_values(m, id, None, None, bw),
                                timeline(tl.segments@, s.start_number as int, timeline_end(kind, duration, s.timescale), forced).0,
                            );
                            lemma_template_in_period(period, b, s.initialization, id, bw, paths);
                            if let Ok(fs) = spec_template_fragments(period, b, s.initialization, id, bw, paths) {
                                lemma_concat_in_period(h, fs, period);
                            }
                        }
                    },
                    None => {},
                },
            }
        }
    }
}

/// Completing a SegmentTemplate@duration plan adds fragments of the same Period.
pub proof fn lemma_numbered_fragments_in_period(
    kind: StreamKind,
    period: u8,
    fragments: Seq<FragmentView>,
    base: Seq<char>,
    media: Seq<char>,
    first: int,
    count: nat,
)
    requires
        all_in_period(fragments, period),
    ensures
        spec_numbered_fragments(kind, period, fragments, base, media, first, count) matches Ok(fs) ==> all_in_period(
            fs,
            period,
        ),
{
    if let Ok(us) = spec_merge_all(base, numbered_paths(media, first, count)) {
        lemma_plain_in_period(us, period);
        lemma_concat_in_period(fragments, us.map_values(|u: Seq<char>| plain_fragment(period, u)), period);
    }
}

} // verus!
