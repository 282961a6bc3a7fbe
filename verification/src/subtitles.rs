//! Subtitles of a Period: the choice of the subtitle AdaptationSet, and what to download for its
//! first Representation (whole files named by BaseURL elements, or media fragments).

use vstd::prelude::*;
use crate::DashMpdError;
use crate::duration::XsDuration;
use crate::mpd::{AdaptationSet, Representation, SegmentTemplate, SegmentTimeline, BaseURL};
use crate::classify::{SubtitleType, spec_is_subtitle_adaptation, is_subtitle_adaptation};
use crate::selection::{spec_lang_distance, lang_distance_defined, lang_distance_defined_check, adaptation_lang_distance};
use crate::fragments::{
    MediaFragment, FragmentView, fragment_views, spec_segment_list_fragments,
    segment_list_fragments, spec_template_fragments, spec_merge_all, merge_all,
};
use crate::addressing::{
    StreamKind, SegmentDuration, PlanError, reports, first_base, merge_opt, merge_first, first_base_value,
    bandwidth_value, addressing_template, addressing_timeline, timeline_end, period_end_in_timescale,
    template_init_fragments, append_plain_fragments, concat_fragments, lemma_template_fragments_split,
    timeline_without_media_msg, zero_timescale_msg, all_in_period, lemma_concat_in_period,
    lemma_segment_list_in_period, lemma_template_in_period,
};
use crate::period::{
    TemplateSettings, SettingsView, initial_settings, inherited_settings, applied_settings,
    representation_params, representation_template, representation_timeline,
};
use crate::template::{resolve_template_values, resolve_url_template};
use crate::timeline::{timeline, timeline_ok, timeline_fits, slot_paths, timeline_segment_paths};
use crate::text::{opt_view, str_eq, push_str};
use crate::urls::{url_parse, parse_url, UrlParseOutcome};
use crate::messages::views;
use crate::subtitle_safety::{vtt_conversion_hazard, ttml_conversion_hazard, vtt_hazard_check, ttml_hazard_check};

verus! {

// ---------------------------------------------------------------------------------------------
// The subtitle AdaptationSet

/// `r` is the choice of subtitle AdaptationSet among `adaps`: without a language preference the
/// first subtitle AdaptationSet; with one, the first of those closest to the preferred language;
/// none when there is no subtitle AdaptationSet.
pub open spec fn is_subtitle_choice(adaps: Seq<AdaptationSet>, lang: Option<Seq<char>>, r: Option<int>) -> bool {
    match r {
        None => forall|j: int| 0 <= j < adaps.len() ==> !spec_is_subtitle_adaptation(#[trigger] adaps[j]),
        Some(i) => {
            &&& 0 <= i < adaps.len()
            &&& spec_is_subtitle_adaptation(adaps[i])
            &&& match lang {
                None => forall|j: int| 0 <= j < i ==> !spec_is_subtitle_adaptation(#[trigger] adaps[j]),
                Some(l) => {
                    &&& forall|j: int|
                        0 <= j < adaps.len() && spec_is_subtitle_adaptation(#[trigger] adaps[j])
                            ==> spec_lang_distance(opt_view(adaps[i].lang), l) <= spec_lang_distance(opt_view(adaps[j].lang), l)
                    &&& forall|j: int|
                        0 <= j < i && spec_is_subtitle_adaptation(#[trigger] adaps[j])
                            ==> spec_lang_distance(opt_view(adaps[i].lang), l) < spec_lang_distance(opt_view(adaps[j].lang), l)
                },
            }
        },
    }
}

/// The index of the subtitle AdaptationSet to download (see `is_subtitle_choice`).
pub fn select_subtitle_adaptation(adaptations: &Vec<AdaptationSet>, language_preference: &Option<String>) -> (r: Option<usize>)
    requires
        language_preference matches Some(l) ==> forall|j: int|
            0 <= j < adaptations.len() && spec_is_subtitle_adaptation(#[trigger] adaptations@[j])
                ==> lang_distance_defined(adaptations@[j].lang, l@),
    ensures
        is_subtitle_choice(adaptations@, opt_view(*language_preference), match r {
            Some(i) => Some(i as int),
            None => None,
        }),
{
    let mut best: Option<usize> = None;
    let mut best_distance: u8 = 0;
    let mut i: usize = 0;
    while i < adaptations.len()
        invariant
            i <= adaptations.len(),
            language_preference matches Some(l) ==> forall|j: int|
                0 <= j < adaptations.len() && spec_is_subtitle_adaptation(#[trigger] adaptations@[j])
                    ==> lang_distance_defined(adaptations@[j].lang, l@),
            is_subtitle_choice(adaptations@.take(i as int), opt_view(*language_preference), match best {
                Some(b) => Some(b as int),
                None => None,
            }),
            best matches Some(b) ==> b < i && (language_preference matches Some(l) ==> best_distance
                == spec_lang_distance(opt_view(adaptations@[b as int].lang), l@)),
        decreases adaptations.len() - i,
    {
        let ghost before = adaptations@.take(i as int);
        let ghost after = adaptations@.take(i + 1);
        assert(forall|j: int| 0 <= j < i ==> after[j] == before[j]);
        assert(after[i as int] == adaptations@[i as int]);
        let a = &adaptations[i];
        if is_subtitle_adaptation(&a) {
            match language_preference {
                None => {
                    if best.is_none() {
                        best = Some(i);
                    }
                },
                Some(l) => {
                    let d = adaptation_lang_distance(a, l.as_str());
                    let better = match best {
                        None => true,
                        Some(_) => d < best_distance,
                    };
                    if better {
                        best = Some(i);
                        best_distance = d;
                    }
                },
            }
        }
        i = i + 1;
    }
    assert(adaptations@.take(adaptations.len() as int) =~= adaptations@);
    best
}

// ---------------------------------------------------------------------------------------------
// File names and conversion

/// The extension of a downloaded subtitle file of the given format.
pub open spec fn spec_subtitle_extension(t: SubtitleType) -> Seq<char> {
    match t {
        SubtitleType::Vtt => "vtt"@,
        SubtitleType::Srt => "srt"@,
        SubtitleType::Ttml => "ttml"@,
        SubtitleType::Sami => "sami"@,
        SubtitleType::Wvtt => "wvtt"@,
        SubtitleType::Stpp => "stpp"@,
        _ => "sub"@,
    }
}

/// The extension of a downloaded subtitle file of the given format ("sub" for the formats
/// without one of their own).
pub fn subtitle_extension(t: SubtitleType) -> (r: String)
    ensures
        r@ == spec_subtitle_extension(t),
{
    match t {
        SubtitleType::Vtt => "vtt".to_owned(),
        SubtitleType::Srt => "srt".to_owned(),
        SubtitleType::Ttml => "ttml".to_owned(),
        SubtitleType::Sami => "sami".to_owned(),
        SubtitleType::Wvtt => "wvtt".to_owned(),
        SubtitleType::Stpp => "stpp".to_owned(),
        _ => "sub".to_owned(),
    }
}

/// Subtitles in WVTT or 3GPP timed text are converted to SRT (with MP4Box).
pub fn needs_srt_conversion(formats: &Vec<SubtitleType>) -> (r: bool)
    ensures
        r == (formats@.contains(SubtitleType::Wvtt) || formats@.contains(SubtitleType::Ttxt)),
{
    let mut found = false;
    let mut i: usize = 0;
    while i < formats.len()
        invariant
            i <= formats.len(),
            found == (formats@.take(i as int).contains(SubtitleType::Wvtt) || formats@.take(i as int).contains(
                SubtitleType::Ttxt,
            )),
        decreases formats.len() - i,
    {
        proof {
            let before = formats@.take(i as int);
            let after = formats@.take(i + 1);
            assert(after =~= before.push(formats@[i as int]));
            assert(after[i as int] == formats@[i as int]);
            assert forall|x: SubtitleType| after.contains(x) <==> (before.contains(x) || formats@[i as int] == x) by {
                if after.contains(x) && formats@[i as int] != x {
                    let k = choose|k: int| 0 <= k < after.len() && after[k] == x;
                    assert(before[k] == x);
                }
                if before.contains(x) {
                    let k = choose|k: int| 0 <= k < before.len() && before[k] == x;
                    assert(after[k] == x);
                }
            }
        }
        if formats[i] == SubtitleType::Wvtt || formats[i] == SubtitleType::Ttxt {
            found = true;
        }
        i = i + 1;
    }
    assert(formats@.take(formats.len() as int) =~= formats@);
    found
}

/// The arguments of MP4Box to convert the subtitles in `subs_path` to SRT in `srt_path`.
pub fn mp4box_srt_args(srt_path: &str, subs_path: &str) -> (r: Vec<String>)
    ensures
        views(r@) == seq!["-srt"@, "1"@, "-out"@, srt_path@, subs_path@],
{
    let r = vec!["-srt".to_owned(), "1".to_owned(), "-out".to_owned(), srt_path.to_owned(), subs_path.to_owned()];
    assert(views(r@) =~= seq!["-srt"@, "1"@, "-out"@, srt_path@, subs_path@]);
    r
}

// ---------------------------------------------------------------------------------------------
// What to download

/// What to download for the subtitles of a Period.
#[derive(Debug, Clone)]
pub enum SubtitlePlan {
    /// Whole subtitle files at these URLs.
    Files(Vec<String>),
    /// These media fragments.
    Fragments(Vec<MediaFragment>),
    /// SegmentTemplate@duration: these fragments, then consecutively numbered media segments
    /// (as for audio and video, though their count is rounded up).
    Numbered {
        fragments: Vec<MediaFragment>,
        base_url: String,
        media: String,
        start_number: u64,
        duration: SegmentDuration,
    },
}

/// A subtitle plan, as plain values.
pub enum SubtitlePlanView {
    Files(Seq<Seq<char>>),
    Fragments(Seq<FragmentView>),
    Numbered(Seq<FragmentView>, Seq<char>, Seq<char>, u64, SegmentDuration),
}

pub open spec fn subtitle_plan_view(p: SubtitlePlan) -> SubtitlePlanView {
    match p {
        SubtitlePlan::Files(us) => SubtitlePlanView::Files(views(us@)),
        SubtitlePlan::Fragments(fs) => SubtitlePlanView::Fragments(fragment_views(fs@)),
        SubtitlePlan::Numbered { fragments, base_url, media, start_number, duration } => SubtitlePlanView::Numbered(
            fragment_views(fragments@),
            base_url@,
            media@,
            start_number,
            duration,
        ),
    }
}

pub open spec fn missing_id_msg() -> Seq<char> {
    "Missing @id on Representation node"@
}

pub open spec fn subtitle_missing_duration_msg() -> Seq<char> {
    "Subtitle representation is missing SegmentTemplate@duration"@
}

/// Whether the subtitle plan of an AdaptationSet can be made without overflowing (see
/// `subtitle_plan_fits`): a caller tests this before calling `subtitle_plan`.
pub fn subtitle_plan_fits_check(
    period: u8,
    base_url: &str,
    a: &AdaptationSet,
    period_duration: Option<XsDuration>,
    forced: bool,
) -> (ok: bool)
    ensures
        ok == subtitle_plan_fits(period, base_url@, *a, period_duration, forced),
{
    let b = match merge_first(base_url.to_owned(), &a.BaseURL) {
        Ok(b) => b,
        Err(_) => return true,
    };
    if a.representations.len() == 0 {
        return true;
    }
    let r = &a.representations[0];
    match (representation_template(r, a), representation_timeline(r, a), &r.id) {
        (Some(st), Some(tl), Some(_)) => {
            if r.BaseURL.len() > 0 || r.SegmentList.is_some() {
                return true;
            }
            let mut s = TemplateSettings::new();
            if let Some(rst) = &r.SegmentTemplate {
                s = s.inherit(rst);
            }
            let s = s.apply(st);
            let params = representation_params(r);
            let init_ok = match template_init_fragments(period, b.as_str(), &s, &params) {
                Ok(_) => true,
                Err(_) => false,
            };
            if !(init_ok && s.media.is_some()) {
                return true;
            }
            let end = period_end_in_timescale(StreamKind::Video, period_duration, s.timescale);
            timeline_fits(&tl.segments, s.start_number, end, forced)
        },
        _ => true,
    }
}

/// The subtitle plan of an AdaptationSet (see `subtitle_plan`) when it can be made without
/// overflowing, none otherwise.
pub fn checked_subtitle_plan(
    period: u8,
    base_url: &str,
    a: &AdaptationSet,
    period_duration: Option<XsDuration>,
    forced: bool,
) -> (p: Option<Result<SubtitlePlan, DashMpdError>>)
    ensures
        p is None <==> !subtitle_plan_fits(period, base_url@, *a, period_duration, forced),
        p matches Some(q) ==> match spec_subtitle_plan(period, base_url@, *a, period_duration, forced) {
            Ok(v) => q matches Ok(x) && subtitle_plan_view(x) == v,
            Err(e) => q matches Err(x) && reports(x, e),
        },
{
    if subtitle_plan_fits_check(period, base_url, a, period_duration, forced) {
        Some(subtitle_plan(period, base_url, a, period_duration, forced))
    } else {
        None
    }
}

/// The language distance of every subtitle AdaptationSet is defined.
pub open spec fn subtitle_langs_defined(adaptations: Seq<AdaptationSet>, l: Seq<char>) -> bool {
    forall|j: int|
        0 <= j < adaptations.len() && spec_is_subtitle_adaptation(#[trigger] adaptations[j])
            ==> lang_distance_defined(adaptations[j].lang, l)
}

/// The subtitle AdaptationSet chosen by `select_subtitle_adaptation` when the language distance
/// of every subtitle AdaptationSet is defined; `Err(())` otherwise.
pub fn checked_select_subtitle_adaptation(adaptations: &Vec<AdaptationSet>, language_preference: &Option<String>) -> (r:
    Result<Option<usize>, ()>)
    ensures
        r is Err <==> (language_preference matches Some(l) && !subtitle_langs_defined(adaptations@, l@)),
        r matches Ok(c) ==> is_subtitle_choice(adaptations@, opt_view(*language_preference), match c {
            Some(i) => Some(i as int),
            None => None,
        }),
{
    if let Some(l) = language_preference {
        let mut j: usize = 0;
        while j < adaptations.len()
            invariant
                j <= adaptations.len(),
                *language_preference == Some(*l),
                forall|k: int|
                    0 <= k < j && spec_is_subtitle_adaptation(#[trigger] adaptations@[k])
                        ==> lang_distance_defined(adaptations@[k].lang, l@),
            decreases adaptations.len() - j,
        {
            if is_subtitle_adaptation(&&adaptations[j]) && !lang_distance_defined_check(&adaptations[j].lang, l.as_str()) {
                assert(spec_is_subtitle_adaptation(adaptations@[j as int]) && !lang_distance_defined(
                    adaptations@[j as int].lang,
                    l@,
                ));
                assert(!subtitle_langs_defined(adaptations@, l@));
                return Err(());
            }
            j = j + 1;
        }
    }
    Ok(select_subtitle_adaptation(adaptations, language_preference))
}

/// The `@base` of each BaseURL element.
pub open spec fn base_values(bs: Seq<BaseURL>) -> Seq<Seq<char>> {
    bs.map_values(|b: BaseURL| b.base@)
}

/// The settings of a subtitle Representation's own SegmentTemplate (those of the Period and the
/// AdaptationSet are not inherited).
pub open spec fn subtitle_settings(r: Representation) -> SettingsView {
    match r.SegmentTemplate {
        Some(st) => inherited_settings(initial_settings(), st),
        None => initial_settings(),
    }
}

/// The plan for the subtitles of the AdaptationSet `a`, in the Period numbered `period` whose base
/// URL is `base`; `duration` is the duration of the Period (or of the manifest), and `forced`
/// says whether the user forced a duration. Only the first Representation is read: its BaseURLs
/// name whole files; else a SegmentTemplate (its own or its AdaptationSet's) addresses fragments,
/// which needs a Representation `@id`. A Representation>SegmentList is then read twice, falling
/// back first on the AdaptationSet's BaseURL and then on the Representation's.
pub open spec fn spec_subtitle_plan(
    period: u8,
    base: Seq<char>,
    a: AdaptationSet,
    duration: Option<XsDuration>,
    forced: bool,
) -> Result<SubtitlePlanView, PlanError> {
    match merge_opt(base, first_base(a.BaseURL@)) {
        Err(e) => Err(PlanError::Parsing(e)),
        Ok(b) => if a.representations@.len() == 0 {
            Ok(SubtitlePlanView::Fragments(seq![]))
        } else {
            let r = a.representations@[0];
            if r.BaseURL@.len() > 0 {
                match spec_merge_all(b, base_values(r.BaseURL@)) {
                    Err(e) => Err(PlanError::Parsing(e)),
                    Ok(us) => Ok(SubtitlePlanView::Files(us)),
                }
            } else {
                match addressing_template(a, r) {
                    None => Ok(SubtitlePlanView::Fragments(seq![])),
                    Some(st) => match r.id {
                        None => Err(PlanError::Unhandled(missing_id_msg())),
                        Some(rid) => {
                            let id = Some(rid@);
                            let bw = bandwidth_value(r);
                            match r.SegmentList {
                                Some(sl) => match spec_segment_list_fragments(period, b, sl, id, bw, first_base(a.BaseURL@)) {
                                    Err(e) => Err(PlanError::Parsing(e)),
                                    Ok(f1) => match spec_segment_list_fragments(period, b, sl, id, bw, first_base(r.BaseURL@)) {
                                        Err(e) => Err(PlanError::Parsing(e)),
                                        Ok(f2) => Ok(SubtitlePlanView::Fragments(f1 + f2)),
                                    },
                                },
                                None => {
                                    let s = applied_settings(subtitle_settings(r), st);
                                    match spec_template_fragments(period, b, s.initialization, id, bw, seq![]) {
                                        Err(e) => Err(PlanError::Parsing(e)),
                                        Ok(i) => match addressing_timeline(a, r) {
                                            Some(tl) => match s.media {
                                                None => Err(PlanError::Unhandled(timeline_without_media_msg())),
                                                Some(m) => match spec_template_fragments(
                                                    period,
                                                    b,
                                                    s.initialization,
                                                    id,
                                                    bw,
                                                    slot_paths(
                                                        resolve_template_values(m, id, None, None, bw),
                                                        timeline(
                                                            tl.segments@,
                                                            s.start_number as int,
                                                            timeline_end(StreamKind::Video, duration, s.timescale),
                                                            forced,
                                                        ).0,
                                                    ),
                                                ) {
                                                    Err(e) => Err(PlanError::Parsing(e)),
                                                    Ok(fs) => Ok(SubtitlePlanView::Fragments(fs)),
                                                },
                                            },
                                            None => match s.media {
                                                None => Ok(SubtitlePlanView::Fragments(i)),
                                                Some(m) => match st.duration {
                                                    Some(d) => if s.timescale == 0 {
                                                        Err(PlanError::Unhandled(zero_timescale_msg()))
                                                    } else {
                                                        Ok(SubtitlePlanView::Numbered(
                                                            i,
                                                            b,
                                                            resolve_template_values(m, id, None, None, bw),
                                                            s.start_number,
                                                            SegmentDuration::PerTimescale(d, s.timescale),
                                                        ))
                                                    },
                                                    None => Err(PlanError::Unhandled(subtitle_missing_duration_msg())),
                                                },
                                            },
                                        },
                                    }
                                },
                            }
                        },
                    },
                }
            }
        },
    }
}

/// The fragments of a subtitle plan.
pub open spec fn subtitle_plan_fragments(p: SubtitlePlanView) -> Seq<FragmentView> {
    match p {
        SubtitlePlanView::Files(_) => seq![],
        SubtitlePlanView::Fragments(fs) => fs,
        SubtitlePlanView::Numbered(fs, _, _, _, _) => fs,
    }
}

/// The fragments of a subtitle plan are all fragments of the Period it was made for.
pub proof fn lemma_subtitle_fragments_in_period(
    period: u8,
    base: Seq<char>,
    a: AdaptationSet,
    duration: Option<XsDuration>,
    forced: bool,
)
    ensures
        spec_subtitle_plan(period, base, a, duration, forced) matches Ok(v) ==> all_in_period(
            subtitle_plan_fragments(v),
            period,
        ),
{
    if let Ok(b) = merge_opt(base, first_base(a.BaseURL@)) {
        if a.representations@.len() > 0 {
            let r = a.representations@[0];
            if let (Some(st), Some(rid)) = (addressing_template(a, r), r.id) {
                let id = Some(rid@);
                let bw = bandwidth_value(r);
                if let Some(sl) = r.SegmentList {
                    lemma_segment_list_in_period(period, b, sl, id, bw, first_base(a.BaseURL@));
                    lemma_segment_list_in_period(period, b, sl, id, bw, first_base(r.BaseURL@));
                    if let (Ok(f1), Ok(f2)) = (
                        spec_segment_list_fragments(period, b, sl, id, bw, first_base(a.BaseURL@)),
                        spec_segment_list_fragments(period, b, sl, id, bw, first_base(r.BaseURL@)),
                    ) {
                        lemma_concat_in_period(f1, f2, period);
                    }
                } else {
                    let s = applied_settings(subtitle_settings(r), st);
                    lemma_template_in_period(period, b, s.initialization, id, bw, seq![]);
                    if let (Some(tl), Some(m)) = (addressing_timeline(a, r), s.media) {
                        lemma_template_in_period(
                            period,
                            b,
                            s.initialization,
                            id,
                            bw,
                            slot_paths(
                                resolve_template_values(m, id, None, None, bw),
                                timeline(
                                    tl.segments@,
                                    s.start_number as int,
                                    timeline_end(StreamKind::Video, duration, s.timescale),
                                    forced,
                                ).0,
                            ),
                        );
                    }
                }
            }
        }
    }
}

/// Expanding the SegmentTimeline of the subtitles, where the plan comes to it, neither
/// overflows a `u64` nor repeats a segment of zero duration forever.
pub open spec fn subtitle_plan_fits(
    period: u8,
    base: Seq<char>,
    a: AdaptationSet,
    duration: Option<XsDuration>,
    forced: bool,
) -> bool {
    match merge_opt(base, first_base(a.BaseURL@)) {
        Err(_) => true,
        Ok(b) => a.representations@.len() == 0 || {
            let r = a.representations@[0];
            match (addressing_template(a, r), addressing_timeline(a, r), r.id) {
                (Some(st), Some(tl), Some(rid)) => {
                    let s = applied_settings(subtitle_settings(r), st);
                    (r.BaseURL@.len() == 0 && r.SegmentList is None && spec_template_fragments(
                        period,
                        b,
                        s.initialization,
                        Some(rid@),
                        bandwidth_value(r),
                        seq![],
                    ) is Ok && s.media is Some) ==> timeline_ok(
                        tl.segments@,
                        s.start_number as int,
                        timeline_end(StreamKind::Video, duration, s.timescale),
                        forced,
                    )
                },
                _ => true,
            }
        },
    }
}

/// The `@base` of each BaseURL element.
fn base_strings(bs: &Vec<BaseURL>) -> (r: Vec<String>)
    ensures
        views(r@) == base_values(bs@),
{
    let mut r: Vec<String> = Vec::new();
    let mut i: usize = 0;
    while i < bs.len()
        invariant
            i <= bs.len(),
            views(r@) == base_values(bs@).take(i as int),
        decreases bs.len() - i,
    {
        let ghost before = r@;
        let x = bs[i].base.clone();
        r.push(x);
        assert(r@ == before.push(x));
        assert(views(r@) =~= views(before).push(x@));
        assert(base_values(bs@).take(i + 1) =~= base_values(bs@).take(i as int).push(bs@[i as int].base@));
        i = i + 1;
    }
    assert(base_values(bs@).take(bs.len() as int) =~= base_values(bs@));
    r
}

/// The subtitle plan of the AdaptationSet `a` (see `spec_subtitle_plan`).
pub fn subtitle_plan(
    period: u8,
    base_url: &str,
    a: &AdaptationSet,
    period_duration: Option<XsDuration>,
    forced: bool,
) -> (p: Result<SubtitlePlan, DashMpdError>)
    requires
        subtitle_plan_fits(period, base_url@, *a, period_duration, forced),
    ensures
        match spec_subtitle_plan(period, base_url@, *a, period_duration, forced) {
            Ok(v) => p matches Ok(x) && subtitle_plan_view(x) == v,
            Err(e) => p matches Err(x) && reports(x, e),
        },
{
    let b = match merge_first(base_url.to_owned(), &a.BaseURL) {
        Ok(b) => b,
        Err(x) => return Err(x),
    };
    if a.representations.len() == 0 {
        let v: Vec<MediaFragment> = Vec::new();
        assert(fragment_views(v@) =~= seq![]);
        return Ok(SubtitlePlan::Fragments(v));
    }
    let r = &a.representations[0];
    if r.BaseURL.len() > 0 {
        let paths = base_strings(&r.BaseURL);
        return match merge_all(b.as_str(), &paths) {
            Ok(us) => Ok(SubtitlePlan::Files(us)),
            Err(x) => Err(x),
        };
    }
    let st = match representation_template(r, a) {
        None => {
            let v: Vec<MediaFragment> = Vec::new();
            assert(fragment_views(v@) =~= seq![]);
            return Ok(SubtitlePlan::Fragments(v));
        },
        Some(st) => st,
    };
    if r.id.is_none() {
        return Err(DashMpdError::UnhandledMediaStream("Missing @id on Representation node".to_owned()));
    }
    let params = representation_params(r);
    if let Some(sl) = &r.SegmentList {
        let fb1 = first_base_value(&a.BaseURL);
        let f1 = match segment_list_fragments(period, b.as_str(), sl, &params.representation_id, &params.bandwidth, &fb1) {
            Ok(v) => v,
            Err(x) => return Err(x),
        };
        let fb2 = first_base_value(&r.BaseURL);
        let f2 = match segment_list_fragments(period, b.as_str(), sl, &params.representation_id, &params.bandwidth, &fb2) {
            Ok(v) => v,
            Err(x) => return Err(x),
        };
        return Ok(SubtitlePlan::Fragments(concat_fragments(f1, f2)));
    }
    let mut s = TemplateSettings::new();
    if let Some(rst) = &r.SegmentTemplate {
        s = s.inherit(rst);
    }
    let s = s.apply(st);
    let mut fs = match template_init_fragments(period, b.as_str(), &s, &params) {
        Ok(v) => v,
        Err(x) => return Err(x),
    };
    match representation_timeline(r, a) {
        Some(tl) => match &s.media {
            None => Err(DashMpdError::UnhandledMediaStream("SegmentTimeline without a media attribute".to_owned())),
            Some(m) => {
                let end = period_end_in_timescale(StreamKind::Video, period_duration, s.timescale);
                let paths = timeline_segment_paths(
                    m.as_str(),
                    &params.representation_id,
                    &params.bandwidth,
                    &tl.segments,
                    s.start_number,
                    end,
                    forced,
                );
                proof {
                    lemma_template_fragments_split(
                        period,
                        b@,
                        s@.initialization,
                        opt_view(params.representation_id),
                        opt_view(params.bandwidth),
                        views(paths@),
                    );
                }
                match append_plain_fragments(&mut fs, period, b.as_str(), &paths) {
                    Err(x) => Err(x),
                    Ok(()) => Ok(SubtitlePlan::Fragments(fs)),
                }
            },
        },
        None => match &s.media {
            None => Ok(SubtitlePlan::Fragments(fs)),
            Some(m) => match st.duration {
                Some(d) => {
                    if s.timescale == 0 {
                        Err(DashMpdError::UnhandledMediaStream(
                            "SegmentTemplate@duration attribute cannot be zero".to_owned(),
                        ))
                    } else {
                        let media = resolve_url_template(m.as_str(), &params);
                        Ok(SubtitlePlan::Numbered {
                            fragments: fs,
                            base_url: b,
                            media,
                            start_number: s.start_number,
                            duration: SegmentDuration::PerTimescale(d, s.timescale),
                        })
                    }
                },
                None => Err(DashMpdError::UnhandledMediaStream(
                    "Subtitle representation is missing SegmentTemplate@duration".to_owned(),
                )),
            },
        },
    }
}

// ---------------------------------------------------------------------------------------------
// Conversion to SubRip

/// What `oxideav_subtitle::transform::webvtt_to_srt` makes of WebVTT bytes: SubRip bytes, or the
/// text of its error.
pub uninterp spec fn webvtt_srt(vtt: Seq<u8>) -> Result<Seq<u8>, Seq<char>>;

/// Calls `oxideav_subtitle::transform::webvtt_to_srt`, which parses WebVTT subtitles and writes
/// them in SubRip format (dropping styles, regions and positioning). The outcome, with the
/// error's text, is a function of the bytes and is named `webvtt_srt`; nothing more is claimed.
/// The reader panics, or recurses too deep, on some documents, which `requires` leaves out (see
/// `vtt_conversion_hazard`).
#[verifier::external_body]
fn webvtt_to_srt(vtt: &[u8]) -> (r: Result<Vec<u8>, String>)
    requires
        !vtt_conversion_hazard(vtt@),
    ensures
        match webvtt_srt(vtt@) {
            Ok(b) => r matches Ok(v) && v@ == b,
            Err(m) => r matches Err(e) && e@ == m,
        },
{
    oxideav_subtitle::transform::webvtt_to_srt(vtt).map_err(|e| format!("{e}"))
}

/// The context of the error given for a subtitle document that the converters may not read
/// safely.
pub open spec fn unsafe_document_msg() -> Seq<char> {
    "subtitle document that the converter cannot read safely"@
}

/// Converts WebVTT subtitles to SubRip; a conversion error is reported as an I/O error whose
/// context is the converter's message. A document that the converter may not read safely (see
/// `vtt_conversion_hazard`) is refused with an I/O error, rather than
/// handed to the converter.
pub fn convert_vtt_srt(vtt: &[u8]) -> (r: Result<Vec<u8>, DashMpdError>)
    ensures
        vtt_conversion_hazard(vtt@) ==> (r matches Err(DashMpdError::Io(d, c)) && d@
            == "converting WebVTT subtitles to SubRip format"@ && c@ == unsafe_document_msg()),
        !vtt_conversion_hazard(vtt@) ==> match webvtt_srt(vtt@) {
            Ok(b) => r matches Ok(v) && v@ == b,
            Err(m) => r matches Err(DashMpdError::Io(d, c)) && d@ == "converting WebVTT subtitles to SubRip format"@
                && c@ == m,
        },
{
    if vtt_hazard_check(vtt) {
        return Err(DashMpdError::Io(
            "converting WebVTT subtitles to SubRip format".to_owned(),
            "subtitle document that the converter cannot read safely".to_owned(),
        ));
    }
    match webvtt_to_srt(vtt) {
        Ok(v) => Ok(v),
        Err(m) => Err(DashMpdError::Io("converting WebVTT subtitles to SubRip format".to_owned(), m)),
    }
}

/// What `oxideav_subtitle::ttml::parse` followed by `oxideav_subtitle::srt::write` makes of TTML
/// bytes: the SubRip bytes written from the parsed track, or the text of the parse error.
pub uninterp spec fn ttml_srt(ttml: Seq<u8>) -> Result<Seq<u8>, Seq<char>>;

/// Calls `oxideav_subtitle::ttml::parse`, which parses TTML subtitles into a subtitle track, and
/// then `oxideav_subtitle::srt::write`, which writes that track in SubRip format. Both are
/// deterministic, so the outcome, with the parse error's text, is a function of the bytes, named
/// `ttml_srt`. The reader panics, or recurses too deep, on some documents, which `requires`
/// leaves out (see `ttml_conversion_hazard`).
#[verifier::external_body]
fn ttml_to_srt(ttml: &[u8]) -> (r: Result<Vec<u8>, String>)
    requires
        !ttml_conversion_hazard(ttml@),
    ensures
        match ttml_srt(ttml@) {
            Ok(b) => r matches Ok(v) && v@ == b,
            Err(m) => r matches Err(e) && e@ == m,
        },
{
    match oxideav_subtitle::ttml::parse(ttml) {
        Ok(track) => Ok(oxideav_subtitle::srt::write(&track)),
        Err(e) => Err(format!("{e}")),
    }
}

/// Converts TTML subtitles to SubRip; a parse error is reported as an I/O error whose context is
/// the parser's message. A document that the reader may not read safely (see
/// `ttml_conversion_hazard`) is refused with an I/O error, rather than handed to the reader.
pub fn convert_ttml_srt(ttml: &[u8]) -> (r: Result<Vec<u8>, DashMpdError>)
    ensures
        ttml_conversion_hazard(ttml@) ==> (r matches Err(DashMpdError::Io(d, c)) && d@ == "parsing TTML subtitles"@
            && c@ == unsafe_document_msg()),
        !ttml_conversion_hazard(ttml@) ==> match ttml_srt(ttml@) {
            Ok(b) => r matches Ok(v) && v@ == b,
            Err(m) => r matches Err(DashMpdError::Io(d, c)) && d@ == "parsing TTML subtitles"@ && c@ == m,
        },
{
    if ttml_hazard_check(ttml) {
        return Err(DashMpdError::Io(
            "parsing TTML subtitles".to_owned(),
            "subtitle document that the converter cannot read safely".to_owned(),
        ));
    }
    match ttml_to_srt(ttml) {
        Ok(v) => Ok(v),
        Err(m) => Err(DashMpdError::Io("parsing TTML subtitles".to_owned(), m)),
    }
}

// ---------------------------------------------------------------------------------------------
// Data URLs

/// What the `data-url` crate reads of a data URL: the type part of its media type (such as
/// "audio"), and its decoded body (none when the body does not decode); none when the string is
/// not a data URL.
pub uninterp spec fn data_url_parts(url: Seq<char>) -> Option<(Seq<char>, Option<Seq<u8>>)>;

/// Calls `data_url::DataUrl::process` on the string, then reads the type of its media type and
/// decodes its body with `decode_to_vec` (percent-decoding, or base64 when the URL says so). The
/// outcome is a function of the string and is named `data_url_parts`.
#[verifier::external_body]
fn process_data_url(url: &str) -> (r: Option<(String, Option<Vec<u8>>)>)
    ensures
        match r {
            Some((t, b)) => data_url_parts(url@) == Some((t@, match b {
                Some(v) => Some(v@),
                None => None,
            })),
            None => data_url_parts(url@) is None,
        },
{
    data_url::DataUrl::process(url)
        .ok()
        .map(|d| (d.mime_type().type_.clone(), d.decode_to_vec().ok().map(|(body, _fragment)| body)))
}

/// Whether a fragment's URL is a data URL, whose content is in the URL itself.
pub fn is_data_url(url: &str) -> (r: bool)
    ensures
        r == (url_parse(url@) matches UrlParseOutcome::Parsed(p) && p.scheme@ == "data"@),
{
    match parse_url(url) {
        UrlParseOutcome::Parsed(p) => str_eq(p.scheme.as_str(), "data"),
        _ => false,
    }
}

/// The content embedded in a data URL, which must be of the `expected` media type ("audio" or
/// "video"): a URL that is not a data URL, or whose body does not decode, is a parse error, and
/// another media type is refused.
pub fn data_url_content(url: &str, expected: &str) -> (r: Result<Vec<u8>, DashMpdError>)
    ensures
        match data_url_parts(url@) {
            None => r matches Err(DashMpdError::Parsing(m)) && m@ == "parsing data URL"@,
            Some((t, body)) => if t != expected@ {
                r matches Err(DashMpdError::UnhandledMediaStream(m)) && m@ == "expecting "@ + expected@
                    + " content in data URL"@
            } else {
                match body {
                    None => r matches Err(DashMpdError::Parsing(m)) && m@ == "decoding data URL"@,
                    Some(b) => r matches Ok(v) && v@ == b,
                }
            },
        },
{
    let (t, body) = match process_data_url(url) {
        None => return Err(DashMpdError::Parsing("parsing data URL".to_owned())),
        Some(parts) => parts,
    };
    if !str_eq(t.as_str(), expected) {
        let mut m = "expecting ".to_owned();
        push_str(&mut m, expected);
        push_str(&mut m, " content in data URL");
        return Err(DashMpdError::UnhandledMediaStream(m));
    }
    match body {
        None => Err(DashMpdError::Parsing("decoding data URL".to_owned())),
        Some(v) => Ok(v),
    }
}

} // verus!
