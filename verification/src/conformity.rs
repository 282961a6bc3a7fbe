//! DASH conformity checks on a manifest: attribute limits that its Representations exceed,
//! segment durations above `@maxSegmentDuration`, template identifiers in the wrong places, and
//! URLs that do not parse.

use vstd::prelude::*;
use crate::mpd::{
    MPD, Period, AdaptationSet, Representation, SegmentTemplate, SegmentBase, SegmentList,
    SegmentURL, Initialization, BaseURL, ProgramInformation, S,
};
use crate::duration::XsDuration;
use crate::urls::{UrlParseOutcome, url_parse, parse_url};
use crate::text::{contains_seq, contains_str, str_eq, push_str};
use crate::messages::{
    views, concat_map, msg_if, lemma_concat_map_step, lemma_concat_map_contains, lemma_concat_map_member,
    lemma_add_contains, lemma_msg_if_contains, lemma_take_all, push_msg, append_msgs,
};

verus! {

/// A parse outcome is acceptable when the URL is relative or has one of the schemes https, http,
/// ftp, file and data.
pub open spec fn spec_url_outcome_valid(o: UrlParseOutcome) -> bool {
    match o {
        UrlParseOutcome::Parsed(p) => {
            let scheme = p.scheme;
            ||| scheme@ == "https"@
            ||| scheme@ == "http"@
            ||| scheme@ == "ftp"@
            ||| scheme@ == "file"@
            ||| scheme@ == "data"@
        },
        UrlParseOutcome::RelativeWithoutBase(_) => true,
        UrlParseOutcome::Invalid(_) => false,
    }
}

/// Whether the outcome of parsing a URL is acceptable in a manifest.
pub fn url_outcome_valid(o: &UrlParseOutcome) -> (r: bool)
    ensures
        r == spec_url_outcome_valid(*o),
{
    match o {
        UrlParseOutcome::Parsed(p) => {
            let s = p.scheme.as_str();
            str_eq(s, "https") || str_eq(s, "http") || str_eq(s, "ftp") || str_eq(s, "file")
                || str_eq(s, "data")
        },
        UrlParseOutcome::RelativeWithoutBase(_) => true,
        UrlParseOutcome::Invalid(_) => false,
    }
}

/// The URL or URL path `u` passes the (deliberately relaxed) conformity check.
pub open spec fn spec_valid_url(u: Seq<char>) -> bool {
    spec_url_outcome_valid(url_parse(u))
}

/// Checks the URL or URL path `u` for conformity: it parses as a URL with an accepted scheme, or
/// as a relative URL.
pub fn valid_url_p(u: &str) -> (r: bool)
    ensures
        r == spec_valid_url(u@),
{
    let o = parse_url(u);
    url_outcome_valid(&o)
}

pub open spec fn invalid_url_msg(u: Seq<char>) -> Seq<char> {
    "invalid URL "@ + u
}

/// The message for a URL that fails the check.
pub open spec fn url_msgs(u: Seq<char>) -> Seq<Seq<char>> {
    msg_if(!spec_valid_url(u), invalid_url_msg(u))
}

pub open spec fn opt_url_msgs(o: Option<String>) -> Seq<Seq<char>> {
    match o {
        Some(u) => url_msgs(u@),
        None => seq![],
    }
}

/// The messages for an initialization segment URL: an invalid URL, `$Number` or `$Time` in it.
pub open spec fn init_url_msgs(su: Seq<char>) -> Seq<Seq<char>> {
    url_msgs(su) + msg_if(contains_seq(su, "$Number"@), "$Number$ identifier used in initialization segment URL"@)
        + msg_if(contains_seq(su, "$Time"@), "$Time$ identifier used in initialization segment URL"@)
}

pub open spec fn opt_init_msgs(init: Option<Initialization>) -> Seq<Seq<char>> {
    match init {
        Some(i) => match i.sourceURL {
            Some(su) => init_url_msgs(su@),
            None => seq![],
        },
        None => seq![],
    }
}

/// The messages `check_segment_template_conformity` gives for a SegmentTemplate.
pub open spec fn template_conformity_msgs(st: SegmentTemplate) -> Seq<Seq<char>> {
    let media = match st.media {
        Some(md) => url_msgs(md@) + msg_if(
            contains_seq(md@, "$Number$"@) && contains_seq(md@, "$Time"@),
            "both $Number$ and $Time$ are used in media template URL"@,
        ),
        None => seq![],
    };
    let init = match st.initialization {
        Some(i) => init_url_msgs(i@),
        None => seq![],
    };
    media + init + msg_if(
        st.duration.is_some() && st.SegmentTimeline.is_some(),
        "both SegmentTemplate.duration and SegmentTemplate.SegmentTimeline present"@,
    )
}

pub open spec fn seg_too_long_msg() -> Seq<char> {
    "SegmentTimeline has segment@d > @maxSegmentDuration"@
}

/// One message per segment of the timeline whose duration, in whole seconds of the template's
/// timescale (or of `outer_timescale` when it has none), exceeds `max_secs`.
pub open spec fn segment_duration_fn(timescale: u64, max_secs: u64) -> spec_fn(S) -> Seq<Seq<char>> {
    |s: S| msg_if(s.d / timescale > max_secs, seg_too_long_msg())
}

/// The messages `check_segment_template_duration` gives for a SegmentTemplate.
pub open spec fn template_duration_msgs(st: SegmentTemplate, max: XsDuration, outer_timescale: u64) -> Seq<
    Seq<char>,
> {
    match st.SegmentTimeline {
        Some(tl) => concat_map(
            tl.segments@,
            segment_duration_fn(st.timescale.unwrap_or(outer_timescale), max.secs),
        ),
        None => seq![],
    }
}

/// The divisions of `check_segment_template_duration` are defined: a template whose timeline
/// holds segments has a nonzero timescale (its own, or else `outer_timescale`).
pub open spec fn template_timescale_ok(st: Option<SegmentTemplate>, outer_timescale: u64) -> bool {
    match st {
        Some(t) => match t.SegmentTimeline {
            Some(tl) => tl.segments.len() == 0 || t.timescale.unwrap_or(outer_timescale) != 0,
            None => true,
        },
        None => true,
    }
}

/// The timescale that Representations inherit from their AdaptationSet's SegmentTemplate.
pub open spec fn outer_timescale_of(a: AdaptationSet) -> u64 {
    match a.SegmentTemplate {
        Some(st) => st.timescale.unwrap_or(1),
        None => 1,
    }
}

pub open spec fn opt_template_duration_msgs(st: Option<SegmentTemplate>, max: XsDuration, outer: u64) -> Seq<
    Seq<char>,
> {
    match st {
        Some(t) => template_duration_msgs(t, max, outer),
        None => seq![],
    }
}

pub open spec fn rep_duration_fn(max: XsDuration, outer: u64) -> spec_fn(Representation) -> Seq<Seq<char>> {
    |r: Representation| opt_template_duration_msgs(r.SegmentTemplate, max, outer)
}

/// Segment-duration messages for an AdaptationSet and its Representations.
pub open spec fn adaptation_duration_msgs(a: AdaptationSet, max: XsDuration) -> Seq<Seq<char>> {
    opt_template_duration_msgs(a.SegmentTemplate, max, 1) + concat_map(
        a.representations@,
        rep_duration_fn(max, outer_timescale_of(a)),
    )
}

pub open spec fn adaptation_duration_fn(max: XsDuration) -> spec_fn(AdaptationSet) -> Seq<Seq<char>> {
    |a: AdaptationSet| adaptation_duration_msgs(a, max)
}

pub open spec fn period_duration_fn(max: XsDuration) -> spec_fn(Period) -> Seq<Seq<char>> {
    |p: Period| concat_map(p.adaptations@, adaptation_duration_fn(max))
}

/// The divisions made for every template under `@maxSegmentDuration` are defined.
pub open spec fn timescales_ok(mpd: MPD) -> bool {
    mpd.maxSegmentDuration is Some ==> forall|i: int, j: int|
        0 <= i < mpd.periods.len() && 0 <= j < mpd.periods@[i].adaptations.len() ==> {
            let a = #[trigger] mpd.periods@[i].adaptations@[j];
            &&& template_timescale_ok(a.SegmentTemplate, 1)
            &&& forall|k: int|
                0 <= k < a.representations.len() ==> template_timescale_ok(
                    #[trigger] a.representations@[k].SegmentTemplate,
                    outer_timescale_of(a),
                )
        }
}

/// The Representation attributes whose maximum an AdaptationSet announces.
#[derive(Debug, Clone, Copy, PartialEq, Eq, Structural)]
pub enum Dim {
    Height,
    Width,
    Bandwidth,
}

/// A Representation's value of the attribute, an absent one counting as 0.
pub open spec fn rep_dim(r: Representation, d: Dim) -> u64 {
    match d {
        Dim::Height => r.height.unwrap_or(0),
        Dim::Width => r.width.unwrap_or(0),
        Dim::Bandwidth => r.bandwidth.unwrap_or(0),
    }
}

/// The maximum that the AdaptationSet announces (`@maxHeight`, `@maxWidth`, `@maxBandwidth`).
pub open spec fn dim_limit(a: AdaptationSet, d: Dim) -> Option<u64> {
    match d {
        Dim::Height => a.maxHeight,
        Dim::Width => a.maxWidth,
        Dim::Bandwidth => a.maxBandwidth,
    }
}

/// The announced maximum is below the largest value among the Representations.
pub open spec fn dim_exceeds(a: AdaptationSet, d: Dim) -> bool {
    dim_limit(a, d) matches Some(m) && exists|k: int|
        0 <= k < a.representations.len() && rep_dim(#[trigger] a.representations@[k], d) > m
}

pub open spec fn dim_msg(d: Dim) -> Seq<char> {
    match d {
        Dim::Height => "invalid @maxHeight on AdaptationSet"@,
        Dim::Width => "invalid @maxWidth on AdaptationSet"@,
        Dim::Bandwidth => "invalid @maxBandwidth on AdaptationSet"@,
    }
}

pub open spec fn dim_fn(d: Dim) -> spec_fn(AdaptationSet) -> Seq<Seq<char>> {
    |a: AdaptationSet| msg_if(dim_exceeds(a, d), dim_msg(d))
}

pub open spec fn id_or_unspecified(id: Option<String>) -> Seq<char> {
    match id {
        Some(s) => s@,
        None => "<unspecified>"@,
    }
}

/// The first group of checks for a Period: it has AdaptationSets, and their `@maxHeight` holds.
pub open spec fn period_height_fn() -> spec_fn(Period) -> Seq<Seq<char>> {
    |p: Period|
        msg_if(
            p.adaptations.len() == 0,
            "Period with @id "@ + id_or_unspecified(p.id) + " contains no AdaptationSet elements"@,
        ) + concat_map(p.adaptations@, dim_fn(Dim::Height))
}

pub open spec fn period_dim_fn(d: Dim) -> spec_fn(Period) -> Seq<Seq<char>> {
    |p: Period| concat_map(p.adaptations@, dim_fn(d))
}

pub open spec fn base_url_fn() -> spec_fn(BaseURL) -> Seq<Seq<char>> {
    |b: BaseURL| url_msgs(b.base@)
}

pub open spec fn opt_template_conformity_msgs(st: Option<SegmentTemplate>) -> Seq<Seq<char>> {
    match st {
        Some(t) => template_conformity_msgs(t),
        None => seq![],
    }
}

pub open spec fn segment_base_msgs(sb: Option<SegmentBase>) -> Seq<Seq<char>> {
    match sb {
        Some(b) => opt_init_msgs(b.Initialization) + match b.representation_index {
            Some(ri) => opt_url_msgs(ri.sourceURL),
            None => seq![],
        },
        None => seq![],
    }
}

pub open spec fn segment_url_fn() -> spec_fn(SegmentURL) -> Seq<Seq<char>> {
    |su: SegmentURL| opt_url_msgs(su.media) + opt_url_msgs(su.index)
}

pub open spec fn segment_list_msgs(sl: Option<SegmentList>) -> Seq<Seq<char>> {
    match sl {
        Some(l) => opt_url_msgs(l.href) + opt_init_msgs(l.Initialization) + concat_map(
            l.segment_urls@,
            segment_url_fn(),
        ),
        None => seq![],
    }
}

/// URL and template messages for a Representation.
pub open spec fn rep_url_fn() -> spec_fn(Representation) -> Seq<Seq<char>> {
    |r: Representation|
        concat_map(r.BaseURL@, base_url_fn()) + segment_base_msgs(r.SegmentBase) + segment_list_msgs(
            r.SegmentList,
        ) + opt_template_conformity_msgs(r.SegmentTemplate)
}

pub open spec fn adaptation_url_fn() -> spec_fn(AdaptationSet) -> Seq<Seq<char>> {
    |a: AdaptationSet|
        concat_map(a.BaseURL@, base_url_fn()) + opt_template_conformity_msgs(a.SegmentTemplate)
            + concat_map(a.representations@, rep_url_fn())
}

pub open spec fn period_url_fn() -> spec_fn(Period) -> Seq<Seq<char>> {
    |p: Period| concat_map(p.BaseURL@, base_url_fn()) + concat_map(p.adaptations@, adaptation_url_fn())
}

pub open spec fn program_information_fn() -> spec_fn(ProgramInformation) -> Seq<Seq<char>> {
    |pi: ProgramInformation| opt_url_msgs(pi.moreInformationURL)
}

/// All conformity messages for a manifest, in the order in which they are reported.
pub open spec fn conformity_msgs(mpd: MPD) -> Seq<Seq<char>> {
    let ps = mpd.periods@;
    let durations = match mpd.maxSegmentDuration {
        Some(max) => concat_map(ps, period_duration_fn(max)),
        None => seq![],
    };
    concat_map(ps, period_height_fn()) + concat_map(ps, period_dim_fn(Dim::Width)) + concat_map(
        ps,
        period_dim_fn(Dim::Bandwidth),
    ) + durations + concat_map(mpd.base_url@, base_url_fn()) + concat_map(ps, period_url_fn())
        + concat_map(mpd.ProgramInformation@, program_information_fn())
}


/// The three maximum messages, character by character.
proof fn reveal_dim_msgs()
    ensures
        dim_msg(Dim::Height)[0] == 'i' && dim_msg(Dim::Height)[8] == '@' && dim_msg(Dim::Height)[12] == 'H',
        dim_msg(Dim::Width)[0] == 'i' && dim_msg(Dim::Width)[8] == '@' && dim_msg(Dim::Width)[12] == 'W',
        dim_msg(Dim::Bandwidth)[0] == 'i' && dim_msg(Dim::Bandwidth)[8] == '@' && dim_msg(Dim::Bandwidth)[12]
            == 'B',
{
    reveal_strlit("invalid @maxHeight on AdaptationSet");
    reveal_strlit("invalid @maxWidth on AdaptationSet");
    reveal_strlit("invalid @maxBandwidth on AdaptationSet");
}

proof fn lemma_url_msgs_exclude(u: Seq<char>, d: Dim)
    ensures
        !url_msgs(u).contains(dim_msg(d)),
{
    reveal_strlit("invalid URL ");
    reveal_dim_msgs();
    lemma_msg_if_contains(!spec_valid_url(u), invalid_url_msg(u), dim_msg(d));
    assert(invalid_url_msg(u)[8] != dim_msg(d)[8]);
}

proof fn lemma_opt_url_msgs_exclude(o: Option<String>, d: Dim)
    ensures
        !opt_url_msgs(o).contains(dim_msg(d)),
{
    if let Some(u) = o {
        lemma_url_msgs_exclude(u@, d);
    }
}

proof fn lemma_init_url_msgs_exclude(su: Seq<char>, d: Dim)
    ensures
        !init_url_msgs(su).contains(dim_msg(d)),
{
    let t = dim_msg(d);
    let m1 = "$Number$ identifier used in initialization segment URL"@;
    let m2 = "$Time$ identifier used in initialization segment URL"@;
    reveal_strlit("$Number$ identifier used in initialization segment URL");
    reveal_strlit("$Time$ identifier used in initialization segment URL");
    reveal_dim_msgs();
    assert(m1[0] != t[0]);
    assert(m2[0] != t[0]);
    let a = msg_if(contains_seq(su, "$Number"@), m1);
    let b = msg_if(contains_seq(su, "$Time"@), m2);
    lemma_url_msgs_exclude(su, d);
    lemma_msg_if_contains(contains_seq(su, "$Number"@), m1, t);
    lemma_msg_if_contains(contains_seq(su, "$Time"@), m2, t);
    lemma_add_contains(url_msgs(su) + a, b, t);
    lemma_add_contains(url_msgs(su), a, t);
}

proof fn lemma_opt_init_msgs_exclude(init: Option<Initialization>, d: Dim)
    ensures
        !opt_init_msgs(init).contains(dim_msg(d)),
{
    if let Some(i) = init {
        if let Some(su) = i.sourceURL {
            lemma_init_url_msgs_exclude(su@, d);
        }
    }
}

proof fn lemma_template_conformity_exclude(st: Option<SegmentTemplate>, d: Dim)
    ensures
        !opt_template_conformity_msgs(st).contains(dim_msg(d)),
{
    if let Some(st) = st {
        let t = dim_msg(d);
        let m1 = "both $Number$ and $Time$ are used in media template URL"@;
        let m2 = "both SegmentTemplate.duration and SegmentTemplate.SegmentTimeline present"@;
        reveal_strlit("both $Number$ and $Time$ are used in media template URL");
        reveal_strlit("both SegmentTemplate.duration and SegmentTemplate.SegmentTimeline present");
        reveal_dim_msgs();
        assert(m1[0] != t[0]);
        assert(m2[0] != t[0]);
        let media = match st.media {
            Some(md) => url_msgs(md@) + msg_if(
                contains_seq(md@, "$Number$"@) && contains_seq(md@, "$Time"@),
                m1,
            ),
            None => seq![],
        };
        let init = match st.initialization {
            Some(i) => init_url_msgs(i@),
            None => seq![],
        };
        let c2 = st.duration.is_some() && st.SegmentTimeline.is_some();
        if let Some(md) = st.media {
            let c1 = contains_seq(md@, "$Number$"@) && contains_seq(md@, "$Time"@);
            lemma_url_msgs_exclude(md@, d);
            lemma_msg_if_contains(c1, m1, t);
            lemma_add_contains(url_msgs(md@), msg_if(c1, m1), t);
        }
        if let Some(i) = st.initialization {
            lemma_init_url_msgs_exclude(i@, d);
        }
        lemma_msg_if_contains(c2, m2, t);
        lemma_add_contains(media + init, msg_if(c2, m2), t);
        lemma_add_contains(media, init, t);
        assert(template_conformity_msgs(st) == media + init + msg_if(c2, m2));
    }
}

proof fn lemma_base_urls_exclude(bs: Seq<BaseURL>, d: Dim)
    ensures
        !concat_map(bs, base_url_fn()).contains(dim_msg(d)),
{
    lemma_concat_map_member(bs, base_url_fn(), dim_msg(d));
    if concat_map(bs, base_url_fn()).contains(dim_msg(d)) {
        let i = choose|i: int| 0 <= i < bs.len() && (#[trigger] base_url_fn()(bs[i])).contains(dim_msg(d));
        lemma_url_msgs_exclude(bs[i].base@, d);
    }
}

proof fn lemma_segment_base_exclude(sb: Option<SegmentBase>, d: Dim)
    ensures
        !segment_base_msgs(sb).contains(dim_msg(d)),
{
    if let Some(b) = sb {
        lemma_opt_init_msgs_exclude(b.Initialization, d);
        let tail = match b.representation_index {
            Some(ri) => opt_url_msgs(ri.sourceURL),
            None => seq![],
        };
        if let Some(ri) = b.representation_index {
            lemma_opt_url_msgs_exclude(ri.sourceURL, d);
        }
        lemma_add_contains(opt_init_msgs(b.Initialization), tail, dim_msg(d));
    }
}

proof fn lemma_segment_list_exclude(sl: Option<SegmentList>, d: Dim)
    ensures
        !segment_list_msgs(sl).contains(dim_msg(d)),
{
    if let Some(l) = sl {
        let t = dim_msg(d);
        lemma_opt_url_msgs_exclude(l.href, d);
        lemma_opt_init_msgs_exclude(l.Initialization, d);
        let us = l.segment_urls@;
        lemma_concat_map_member(us, segment_url_fn(), t);
        if concat_map(us, segment_url_fn()).contains(t) {
            let i = choose|i: int| 0 <= i < us.len() && (#[trigger] segment_url_fn()(us[i])).contains(t);
            lemma_opt_url_msgs_exclude(us[i].media, d);
            lemma_opt_url_msgs_exclude(us[i].index, d);
            lemma_add_contains(opt_url_msgs(us[i].media), opt_url_msgs(us[i].index), t);
        }
        lemma_add_contains(opt_url_msgs(l.href) + opt_init_msgs(l.Initialization), concat_map(us, segment_url_fn()), t);
        lemma_add_contains(opt_url_msgs(l.href), opt_init_msgs(l.Initialization), t);
    }
}

proof fn lemma_rep_url_exclude(r: Representation, d: Dim)
    ensures
        !rep_url_fn()(r).contains(dim_msg(d)),
{
    let t = dim_msg(d);
    let a = concat_map(r.BaseURL@, base_url_fn());
    let b = segment_base_msgs(r.SegmentBase);
    let c = segment_list_msgs(r.SegmentList);
    let e = opt_template_conformity_msgs(r.SegmentTemplate);
    lemma_base_urls_exclude(r.BaseURL@, d);
    lemma_segment_base_exclude(r.SegmentBase, d);
    lemma_segment_list_exclude(r.SegmentList, d);
    lemma_template_conformity_exclude(r.SegmentTemplate, d);
    lemma_add_contains(a + b + c, e, t);
    lemma_add_contains(a + b, c, t);
    lemma_add_contains(a, b, t);
}

proof fn lemma_adaptation_url_exclude(ad: AdaptationSet, d: Dim)
    ensures
        !adaptation_url_fn()(ad).contains(dim_msg(d)),
{
    let t = dim_msg(d);
    let a = concat_map(ad.BaseURL@, base_url_fn());
    let b = opt_template_conformity_msgs(ad.SegmentTemplate);
    let rs = ad.representations@;
    let c = concat_map(rs, rep_url_fn());
    lemma_base_urls_exclude(ad.BaseURL@, d);
    lemma_template_conformity_exclude(ad.SegmentTemplate, d);
    lemma_concat_map_member(rs, rep_url_fn(), t);
    if c.contains(t) {
        let i = choose|i: int| 0 <= i < rs.len() && (#[trigger] rep_url_fn()(rs[i])).contains(t);
        lemma_rep_url_exclude(rs[i], d);
    }
    lemma_add_contains(a + b, c, t);
    lemma_add_contains(a, b, t);
}

proof fn lemma_period_url_exclude(p: Period, d: Dim)
    ensures
        !period_url_fn()(p).contains(dim_msg(d)),
{
    let t = dim_msg(d);
    let a = concat_map(p.BaseURL@, base_url_fn());
    let ads = p.adaptations@;
    let b = concat_map(ads, adaptation_url_fn());
    lemma_base_urls_exclude(p.BaseURL@, d);
    lemma_concat_map_member(ads, adaptation_url_fn(), t);
    if b.contains(t) {
        let i = choose|i: int| 0 <= i < ads.len() && (#[trigger] adaptation_url_fn()(ads[i])).contains(t);
        lemma_adaptation_url_exclude(ads[i], d);
    }
    lemma_add_contains(a, b, t);
}

proof fn lemma_template_duration_exclude(st: Option<SegmentTemplate>, max: XsDuration, outer: u64, d: Dim)
    ensures
        !opt_template_duration_msgs(st, max, outer).contains(dim_msg(d)),
{
    let t = dim_msg(d);
    reveal_strlit("SegmentTimeline has segment@d > @maxSegmentDuration");
    reveal_dim_msgs();
    assert(seg_too_long_msg()[0] != t[0]);
    if let Some(st) = st {
        if let Some(tl) = st.SegmentTimeline {
            let f = segment_duration_fn(st.timescale.unwrap_or(outer), max.secs);
            let segs = tl.segments@;
            lemma_concat_map_member(segs, f, t);
            if concat_map(segs, f).contains(t) {
                let i = choose|i: int| 0 <= i < segs.len() && (#[trigger] f(segs[i])).contains(t);
                lemma_msg_if_contains(segs[i].d / st.timescale.unwrap_or(outer) > max.secs, seg_too_long_msg(), t);
            }
        }
    }
}

proof fn lemma_period_duration_exclude(p: Period, max: XsDuration, d: Dim)
    ensures
        !period_duration_fn(max)(p).contains(dim_msg(d)),
{
    let t = dim_msg(d);
    let ads = p.adaptations@;
    lemma_concat_map_member(ads, adaptation_duration_fn(max), t);
    if concat_map(ads, adaptation_duration_fn(max)).contains(t) {
        let i = choose|i: int| 0 <= i < ads.len() && (#[trigger] adaptation_duration_fn(max)(ads[i])).contains(t);
        let ad = ads[i];
        let rs = ad.representations@;
        let f = rep_duration_fn(max, outer_timescale_of(ad));
        lemma_template_duration_exclude(ad.SegmentTemplate, max, 1, d);
        lemma_concat_map_member(rs, f, t);
        if concat_map(rs, f).contains(t) {
            let k = choose|k: int| 0 <= k < rs.len() && (#[trigger] f(rs[k])).contains(t);
            lemma_template_duration_exclude(rs[k].SegmentTemplate, max, outer_timescale_of(ad), d);
        }
        lemma_add_contains(opt_template_duration_msgs(ad.SegmentTemplate, max, 1), concat_map(rs, f), t);
    }
}

proof fn lemma_other_dims_exclude(p: Period, e: Dim, d: Dim)
    requires
        e != d,
    ensures
        !concat_map(p.adaptations@, dim_fn(e)).contains(dim_msg(d)),
{
    let t = dim_msg(d);
    reveal_dim_msgs();
    assert(dim_msg(e)[12] != t[12]);
    let ads = p.adaptations@;
    lemma_concat_map_member(ads, dim_fn(e), t);
    if concat_map(ads, dim_fn(e)).contains(t) {
        let i = choose|i: int| 0 <= i < ads.len() && (#[trigger] dim_fn(e)(ads[i])).contains(t);
        lemma_msg_if_contains(dim_exceeds(ads[i], e), dim_msg(e), t);
    }
}

/// The message of a Period without AdaptationSets is none of the maximum messages.
proof fn lemma_period_height_head_exclude(p: Period, d: Dim)
    ensures
        !msg_if(
            p.adaptations.len() == 0,
            "Period with @id "@ + id_or_unspecified(p.id) + " contains no AdaptationSet elements"@,
        ).contains(dim_msg(d)),
{
    let t = dim_msg(d);
    let m = "Period with @id "@ + id_or_unspecified(p.id) + " contains no AdaptationSet elements"@;
    reveal_strlit("Period with @id ");
    reveal_dim_msgs();
    assert(m[0] == 'P');
    assert(m[0] != t[0]);
    lemma_msg_if_contains(p.adaptations.len() == 0, m, t);
}

/// The Representation of `a` at position `k` has a value of the attribute above the maximum that
/// `a` announces for it: `@height` above `@maxHeight`, `@width` above `@maxWidth`, `@bandwidth`
/// above `@maxBandwidth`.
pub open spec fn rep_above_max(a: AdaptationSet, k: int, d: Dim) -> bool {
    &&& 0 <= k < a.representations.len()
    &&& match d {
        Dim::Height => a.maxHeight matches Some(m) && a.representations@[k].height matches Some(v) && v > m,
        Dim::Width => a.maxWidth matches Some(m) && a.representations@[k].width matches Some(v) && v > m,
        Dim::Bandwidth => a.maxBandwidth matches Some(m) && a.representations@[k].bandwidth matches Some(v)
            && v > m,
    }
}

/// Some AdaptationSet of the manifest has a Representation whose attribute is above the maximum
/// that the AdaptationSet announces for it.
pub open spec fn above_max(mpd: MPD, d: Dim) -> bool {
    exists|p: int, a: int, k: int|
        0 <= p < mpd.periods.len() && 0 <= a < mpd.periods@[p].adaptations.len()
            && #[trigger] rep_above_max(mpd.periods@[p].adaptations@[a], k, d)
}

/// The messages of the AdaptationSets of a Period about one maximum hold its message exactly
/// when one of them has a Representation above it.
proof fn lemma_adaptations_dim_iff(p: Period, d: Dim)
    ensures
        concat_map(p.adaptations@, dim_fn(d)).contains(dim_msg(d)) <==> exists|a: int, k: int|
            0 <= a < p.adaptations.len() && #[trigger] rep_above_max(p.adaptations@[a], k, d),
{
    let t = dim_msg(d);
    let ads = p.adaptations@;
    lemma_concat_map_member(ads, dim_fn(d), t);
    if concat_map(ads, dim_fn(d)).contains(t) {
        let a = choose|i: int| 0 <= i < ads.len() && (#[trigger] dim_fn(d)(ads[i])).contains(t);
        lemma_msg_if_contains(dim_exceeds(ads[a], d), t, t);
        let m = dim_limit(ads[a], d)->0;
        let k = choose|k: int|
            0 <= k < ads[a].representations.len() && rep_dim(#[trigger] ads[a].representations@[k], d) > m;
        assert(rep_above_max(ads[a], k, d));
    }
    if exists|a: int, k: int| 0 <= a < p.adaptations.len() && #[trigger] rep_above_max(p.adaptations@[a], k, d) {
        let (a, k) = choose|a: int, k: int|
            0 <= a < p.adaptations.len() && #[trigger] rep_above_max(p.adaptations@[a], k, d);
        assert(rep_dim(ads[a].representations@[k], d) > dim_limit(ads[a], d)->0);
        assert(dim_exceeds(ads[a], d));
        assert(dim_fn(d)(ads[a]) == seq![t]);
        assert(dim_fn(d)(ads[a])[0] == t);
        lemma_concat_map_contains(ads, dim_fn(d), a, t);
    }
}

/// Period-level messages about one maximum, where each Period's messages hold its message exactly
/// when those of its AdaptationSets do, hold it exactly when some Period has an AdaptationSet with
/// a Representation above it.
proof fn lemma_periods_dim_iff(ps: Seq<Period>, f: spec_fn(Period) -> Seq<Seq<char>>, d: Dim)
    requires
        forall|p: Period|
            (#[trigger] f(p)).contains(dim_msg(d)) <==> concat_map(p.adaptations@, dim_fn(d)).contains(
                dim_msg(d),
            ),
    ensures
        concat_map(ps, f).contains(dim_msg(d)) <==> exists|p: int, a: int, k: int|
            0 <= p < ps.len() && 0 <= a < ps[p].adaptations.len() && #[trigger] rep_above_max(
                ps[p].adaptations@[a],
                k,
                d,
            ),
{
    let t = dim_msg(d);
    lemma_concat_map_member(ps, f, t);
    if concat_map(ps, f).contains(t) {
        let p = choose|i: int| 0 <= i < ps.len() && (#[trigger] f(ps[i])).contains(t);
        lemma_adaptations_dim_iff(ps[p], d);
        let (a, k) = choose|a: int, k: int|
            0 <= a < ps[p].adaptations.len() && #[trigger] rep_above_max(ps[p].adaptations@[a], k, d);
        assert(rep_above_max(ps[p].adaptations@[a], k, d));
    }
    if exists|p: int, a: int, k: int|
        0 <= p < ps.len() && 0 <= a < ps[p].adaptations.len() && #[trigger] rep_above_max(ps[p].adaptations@[a], k, d) {
        let (p, a, k) = choose|p: int, a: int, k: int|
            0 <= p < ps.len() && 0 <= a < ps[p].adaptations.len() && #[trigger] rep_above_max(
                ps[p].adaptations@[a],
                k,
                d,
            );
        lemma_adaptations_dim_iff(ps[p], d);
        assert(rep_above_max(ps[p].adaptations@[a], k, d));
        lemma_concat_map_contains(ps, f, p, t);
    }
}

/// The manifest's conformity messages hold "invalid @maxHeight on AdaptationSet" (likewise
/// `@maxWidth`, `@maxBandwidth`) exactly when some AdaptationSet has a Representation whose
/// `@height` (`@width`, `@bandwidth`) is above the maximum that the AdaptationSet announces.
pub proof fn lemma_max_attribute_reported_iff(mpd: MPD, d: Dim)
    ensures
        conformity_msgs(mpd).contains(dim_msg(d)) <==> above_max(mpd, d),
{
    let t = dim_msg(d);
    let ps = mpd.periods@;
    let h = concat_map(ps, period_height_fn());
    let w = concat_map(ps, period_dim_fn(Dim::Width));
    let b = concat_map(ps, period_dim_fn(Dim::Bandwidth));
    let dd = match mpd.maxSegmentDuration {
        Some(max) => concat_map(ps, period_duration_fn(max)),
        None => seq![],
    };
    let u0 = concat_map(mpd.base_url@, base_url_fn());
    let u1 = concat_map(ps, period_url_fn());
    let u2 = concat_map(mpd.ProgramInformation@, program_information_fn());
    let all = conformity_msgs(mpd);
    assert(all == h + w + b + dd + u0 + u1 + u2);
    // Each Period's messages about one maximum hold its message exactly when those of its
    // AdaptationSets do.
    assert forall|p: Period|
        (#[trigger] period_height_fn()(p)).contains(dim_msg(Dim::Height)) <==> concat_map(
            p.adaptations@,
            dim_fn(Dim::Height),
        ).contains(dim_msg(Dim::Height)) by {
        let m = "Period with @id "@ + id_or_unspecified(p.id) + " contains no AdaptationSet elements"@;
        let x = msg_if(p.adaptations.len() == 0, m);
        let y = concat_map(p.adaptations@, dim_fn(Dim::Height));
        lemma_period_height_head_exclude(p, Dim::Height);
        lemma_add_contains(x, y, dim_msg(Dim::Height));
        if y.contains(dim_msg(Dim::Height)) {
            let j = choose|j: int| 0 <= j < y.len() && y[j] == dim_msg(Dim::Height);
            assert((x + y)[x.len() + j] == dim_msg(Dim::Height));
        }
    }
    assert forall|p: Period|
        (#[trigger] period_dim_fn(d)(p)).contains(t) <==> concat_map(p.adaptations@, dim_fn(d)).contains(t) by {}
    // The messages of the other blocks are not this one.
    assert forall|e: Dim| e != d implies !concat_map(ps, period_dim_fn(e)).contains(t) by {
        lemma_concat_map_member(ps, period_dim_fn(e), t);
        if concat_map(ps, period_dim_fn(e)).contains(t) {
            let i = choose|i: int| 0 <= i < ps.len() && (#[trigger] period_dim_fn(e)(ps[i])).contains(t);
            lemma_other_dims_exclude(ps[i], e, d);
        }
    }
    if d != Dim::Height {
        lemma_concat_map_member(ps, period_height_fn(), t);
        if h.contains(t) {
            let i = choose|i: int| 0 <= i < ps.len() && (#[trigger] period_height_fn()(ps[i])).contains(t);
            let p = ps[i];
            let m = "Period with @id "@ + id_or_unspecified(p.id) + " contains no AdaptationSet elements"@;
            lemma_period_height_head_exclude(p, d);
            lemma_other_dims_exclude(p, Dim::Height, d);
            lemma_add_contains(msg_if(p.adaptations.len() == 0, m), concat_map(p.adaptations@, dim_fn(Dim::Height)), t);
        }
    }
    if let Some(max) = mpd.maxSegmentDuration {
        lemma_concat_map_member(ps, period_duration_fn(max), t);
        if dd.contains(t) {
            let i = choose|i: int| 0 <= i < ps.len() && (#[trigger] period_duration_fn(max)(ps[i])).contains(t);
            lemma_period_duration_exclude(ps[i], max, d);
        }
    }
    lemma_base_urls_exclude(mpd.base_url@, d);
    lemma_concat_map_member(ps, period_url_fn(), t);
    if u1.contains(t) {
        let i = choose|i: int| 0 <= i < ps.len() && (#[trigger] period_url_fn()(ps[i])).contains(t);
        lemma_period_url_exclude(ps[i], d);
    }
    let pis = mpd.ProgramInformation@;
    lemma_concat_map_member(pis, program_information_fn(), t);
    if u2.contains(t) {
        let i = choose|i: int| 0 <= i < pis.len() && (#[trigger] program_information_fn()(pis[i])).contains(t);
        lemma_opt_url_msgs_exclude(pis[i].moreInformationURL, d);
    }
    lemma_add_contains(h + w + b + dd + u0 + u1, u2, t);
    lemma_add_contains(h + w + b + dd + u0, u1, t);
    lemma_add_contains(h + w + b + dd, u0, t);
    lemma_add_contains(h + w + b, dd, t);
    lemma_add_contains(h + w, b, t);
    lemma_add_contains(h, w, t);
    // The block of this maximum decides.
    let rest = all.skip((h.len() + w.len() + b.len()) as int);
    assert(all =~= h + w + b + rest);
    match d {
        Dim::Height => {
            lemma_periods_dim_iff(ps, period_height_fn(), d);
            if h.contains(t) {
                let j = choose|j: int| 0 <= j < h.len() && h[j] == t;
                assert((h + w + b + rest)[j] == t);
            }
        },
        Dim::Width => {
            lemma_periods_dim_iff(ps, period_dim_fn(d), d);
            if w.contains(t) {
                let j = choose|j: int| 0 <= j < w.len() && w[j] == t;
                assert((h + w + b + rest)[h.len() + j] == t);
            }
        },
        Dim::Bandwidth => {
            lemma_periods_dim_iff(ps, period_dim_fn(d), d);
            if b.contains(t) {
                let j = choose|j: int| 0 <= j < b.len() && b[j] == t;
                assert((h + w + b + rest)[h.len() + w.len() + j] == t);
            }
        },
    }
}

/// The manifest's conformity messages hold "invalid @maxWidth on AdaptationSet" exactly when some
/// AdaptationSet has a Representation whose `@width` is above the AdaptationSet's `@maxWidth`.
pub proof fn lemma_max_width_reported_iff(mpd: MPD)
    ensures
        conformity_msgs(mpd).contains("invalid @maxWidth on AdaptationSet"@) <==> above_max(mpd, Dim::Width),
{
    lemma_max_attribute_reported_iff(mpd, Dim::Width);
}

/// No message, or the one message `m` when `c` holds.
fn msg_vec_if(c: bool, m: &str) -> (r: Vec<String>)
    ensures
        views(r@) == msg_if(c, m@),
{
    let mut r: Vec<String> = Vec::new();
    if c {
        push_msg(&mut r, m.to_owned());
    }
    assert(views(r@) =~= msg_if(c, m@));
    r
}

/// The message for `u` when it fails the URL check.
fn url_msg_vec(u: &str) -> (r: Vec<String>)
    ensures
        views(r@) == url_msgs(u@),
{
    let mut r: Vec<String> = Vec::new();
    if !valid_url_p(u) {
        let mut m = "invalid URL ".to_owned();
        push_str(&mut m, u);
        push_msg(&mut r, m);
    }
    assert(views(r@) =~= url_msgs(u@));
    r
}

fn opt_url_msg_vec(o: &Option<String>) -> (r: Vec<String>)
    ensures
        views(r@) == opt_url_msgs(*o),
{
    match o {
        Some(u) => url_msg_vec(u.as_str()),
        None => {
            let r: Vec<String> = Vec::new();
            assert(views(r@) =~= seq![]);
            r
        },
    }
}

fn init_url_msg_vec(su: &str) -> (r: Vec<String>)
    ensures
        views(r@) == init_url_msgs(su@),
{
    let mut r = url_msg_vec(su);
    append_msgs(
        &mut r,
        msg_vec_if(contains_str(su, "$Number"), "$Number$ identifier used in initialization segment URL"),
    );
    append_msgs(
        &mut r,
        msg_vec_if(contains_str(su, "$Time"), "$Time$ identifier used in initialization segment URL"),
    );
    r
}

fn opt_init_msg_vec(init: &Option<Initialization>) -> (r: Vec<String>)
    ensures
        views(r@) == opt_init_msgs(*init),
{
    if let Some(i) = init {
        if let Some(su) = &i.sourceURL {
            return init_url_msg_vec(su.as_str());
        }
    }
    let r: Vec<String> = Vec::new();
    assert(views(r@) =~= seq![]);
    r
}

/// The conformity messages for a SegmentTemplate: an invalid media or initialization URL, both
/// `$Number$` and `$Time` in the media URL, `$Number` or `$Time` in the initialization URL, and
/// both `@duration` and a SegmentTimeline present.
pub fn check_segment_template_conformity(st: &SegmentTemplate) -> (r: Vec<String>)
    ensures
        views(r@) == template_conformity_msgs(*st),
{
    let mut errors: Vec<String> = Vec::new();
    if let Some(md) = &st.media {
        let md = md.as_str();
        append_msgs(&mut errors, url_msg_vec(md));
        append_msgs(
            &mut errors,
            msg_vec_if(
                contains_str(md, "$Number$") && contains_str(md, "$Time"),
                "both $Number$ and $Time$ are used in media template URL",
            ),
        );
    }
    if let Some(init) = &st.initialization {
        append_msgs(&mut errors, init_url_msg_vec(init.as_str()));
    }
    append_msgs(
        &mut errors,
        msg_vec_if(
            st.duration.is_some() && st.SegmentTimeline.is_some(),
            "both SegmentTemplate.duration and SegmentTemplate.SegmentTimeline present",
        ),
    );
    assert(views(errors@) =~= template_conformity_msgs(*st));
    errors
}

/// One message per segment of the SegmentTimeline whose `@d`, in whole seconds of the template's
/// `@timescale` (`outer_timescale` when it has none), exceeds `max_seg_duration`.
pub fn check_segment_template_duration(
    st: &SegmentTemplate,
    max_seg_duration: &XsDuration,
    outer_timescale: u64,
) -> (r: Vec<String>)
    requires
        template_timescale_ok(Some(*st), outer_timescale),
    ensures
        views(r@) == template_duration_msgs(*st, *max_seg_duration, outer_timescale),
{
    let mut errors: Vec<String> = Vec::new();
    if let Some(timeline) = &st.SegmentTimeline {
        let segs = &timeline.segments;
        let ts = st.timescale.unwrap_or(outer_timescale);
        let max_secs = max_seg_duration.as_secs();
        let ghost f = segment_duration_fn(ts, max_secs);
        let mut i: usize = 0;
        assert(views(errors@) =~= concat_map(segs@.take(0), f));
        while i < segs.len()
            invariant
                i <= segs.len(),
                segs.len() == 0 || ts != 0,
                f == segment_duration_fn(ts, max_secs),
                views(errors@) == concat_map(segs@.take(i as int), f),
            decreases segs.len() - i,
        {
            let sd = segs[i].d / ts;
            append_msgs(
                &mut errors,
                msg_vec_if(sd > max_secs, "SegmentTimeline has segment@d > @maxSegmentDuration"),
            );
            proof {
                lemma_concat_map_step(segs@, f, i as int);
            }
            i = i + 1;
        }
        proof {
            lemma_take_all(segs@);
        }
    } else {
        assert(views(errors@) =~= seq![]);
    }
    errors
}

fn opt_template_duration_msg_vec(st: &Option<SegmentTemplate>, max: &XsDuration, outer: u64) -> (r: Vec<
    String,
>)
    requires
        template_timescale_ok(*st, outer),
    ensures
        views(r@) == opt_template_duration_msgs(*st, *max, outer),
{
    match st {
        Some(t) => check_segment_template_duration(t, max, outer),
        None => {
            let r: Vec<String> = Vec::new();
            assert(views(r@) =~= seq![]);
            r
        },
    }
}

/// Segment-duration messages for an AdaptationSet: its own SegmentTemplate, then those of its
/// Representations, which inherit the timescale of the AdaptationSet's template.
fn adaptation_duration_msg_vec(a: &AdaptationSet, max: &XsDuration) -> (r: Vec<String>)
    requires
        template_timescale_ok(a.SegmentTemplate, 1),
        forall|k: int|
            0 <= k < a.representations.len() ==> template_timescale_ok(
                #[trigger] a.representations@[k].SegmentTemplate,
                outer_timescale_of(*a),
            ),
    ensures
        views(r@) == adaptation_duration_msgs(*a, *max),
{
    let mut errors = opt_template_duration_msg_vec(&a.SegmentTemplate, max, 1);
    let mut outer_timescale: u64 = 1;
    if let Some(st) = &a.SegmentTemplate {
        if let Some(ots) = st.timescale {
            outer_timescale = ots;
        }
    }
    let reps = &a.representations;
    let ghost f = rep_duration_fn(*max, outer_timescale_of(*a));
    let ghost head = views(errors@);
    let mut i: usize = 0;
    assert(views(errors@) =~= head + concat_map(reps@.take(0), f));
    while i < reps.len()
        invariant
            i <= reps.len(),
            reps == a.representations,
            outer_timescale == outer_timescale_of(*a),
            f == rep_duration_fn(*max, outer_timescale_of(*a)),
            forall|k: int|
                0 <= k < a.representations.len() ==> template_timescale_ok(
                    #[trigger] a.representations@[k].SegmentTemplate,
                    outer_timescale_of(*a),
                ),
            views(errors@) == head + concat_map(reps@.take(i as int), f),
        decreases reps.len() - i,
    {
        let part = opt_template_duration_msg_vec(&reps[i].SegmentTemplate, max, outer_timescale);
        append_msgs(&mut errors, part);
        proof {
            lemma_concat_map_step(reps@, f, i as int);
        }
        i = i + 1;
    }
    proof {
        lemma_take_all(reps@);
    }
    errors
}

/// Segment-duration messages for every AdaptationSet of every Period.
fn periods_duration_msg_vec(mpd: &MPD, max: &XsDuration) -> (r: Vec<String>)
    requires
        mpd.maxSegmentDuration is Some,
        timescales_ok(*mpd),
    ensures
        views(r@) == concat_map(mpd.periods@, period_duration_fn(*max)),
{
    let ps = &mpd.periods;
    let ghost pf = period_duration_fn(*max);
    let ghost af = adaptation_duration_fn(*max);
    let mut errors: Vec<String> = Vec::new();
    let mut i: usize = 0;
    assert(views(errors@) =~= concat_map(ps@.take(0), pf));
    while i < ps.len()
        invariant
            i <= ps.len(),
            ps == mpd.periods,
            mpd.maxSegmentDuration is Some,
            timescales_ok(*mpd),
            pf == period_duration_fn(*max),
            af == adaptation_duration_fn(*max),
            views(errors@) == concat_map(ps@.take(i as int), pf),
        decreases ps.len() - i,
    {
        let adaps = &ps[i].adaptations;
        let ghost head = views(errors@);
        let mut j: usize = 0;
        assert(views(errors@) =~= head + concat_map(adaps@.take(0), af));
        while j < adaps.len()
            invariant
                i < ps.len(),
                j <= adaps.len(),
                ps == mpd.periods,
                adaps == mpd.periods@[i as int].adaptations,
                mpd.maxSegmentDuration is Some,
                timescales_ok(*mpd),
                af == adaptation_duration_fn(*max),
                views(errors@) == head + concat_map(adaps@.take(j as int), af),
            decreases adaps.len() - j,
        {
            let ghost a = mpd.periods@[i as int].adaptations@[j as int];
            assert(a == adaps@[j as int]);
            let part = adaptation_duration_msg_vec(&adaps[j], max);
            append_msgs(&mut errors, part);
            proof {
                lemma_concat_map_step(adaps@, af, j as int);
            }
            j = j + 1;
        }
        proof {
            lemma_take_all(adaps@);
            lemma_concat_map_step(ps@, pf, i as int);
        }
        i = i + 1;
    }
    proof {
        lemma_take_all(ps@);
    }
    errors
}


/// Whether some Representation's value of the attribute exceeds `m`.
fn reps_exceed(reps: &Vec<Representation>, d: Dim, m: u64) -> (r: bool)
    ensures
        r == exists|k: int| 0 <= k < reps.len() && rep_dim(#[trigger] reps@[k], d) > m,
{
    let mut i: usize = 0;
    while i < reps.len()
        invariant
            i <= reps.len(),
            forall|k: int| 0 <= k < i ==> rep_dim(#[trigger] reps@[k], d) <= m,
        decreases reps.len() - i,
    {
        let r = &reps[i];
        let v = match d {
            Dim::Height => r.height.unwrap_or(0),
            Dim::Width => r.width.unwrap_or(0),
            Dim::Bandwidth => r.bandwidth.unwrap_or(0),
        };
        if v > m {
            assert(rep_dim(reps@[i as int], d) > m);
            return true;
        }
        i = i + 1;
    }
    false
}

/// The message for an AdaptationSet whose announced maximum of the attribute is below the
/// largest value among its Representations.
fn dim_msg_vec(a: &AdaptationSet, d: Dim) -> (r: Vec<String>)
    ensures
        views(r@) == (dim_fn(d))(*a),
{
    let limit = match d {
        Dim::Height => a.maxHeight,
        Dim::Width => a.maxWidth,
        Dim::Bandwidth => a.maxBandwidth,
    };
    let msg = match d {
        Dim::Height => "invalid @maxHeight on AdaptationSet",
        Dim::Width => "invalid @maxWidth on AdaptationSet",
        Dim::Bandwidth => "invalid @maxBandwidth on AdaptationSet",
    };
    let exceeds = match limit {
        Some(m) => reps_exceed(&a.representations, d, m),
        None => false,
    };
    msg_vec_if(exceeds, msg)
}

/// The messages for the attribute limits of each AdaptationSet of `adaps`.
fn adaptations_dim_msg_vec(adaps: &Vec<AdaptationSet>, d: Dim) -> (r: Vec<String>)
    ensures
        views(r@) == concat_map(adaps@, dim_fn(d)),
{
    let mut errors: Vec<String> = Vec::new();
    let mut i: usize = 0;
    assert(views(errors@) =~= concat_map(adaps@.take(0), dim_fn(d)));
    while i < adaps.len()
        invariant
            i <= adaps.len(),
            views(errors@) == concat_map(adaps@.take(i as int), dim_fn(d)),
        decreases adaps.len() - i,
    {
        append_msgs(&mut errors, dim_msg_vec(&adaps[i], d));
        proof {
            lemma_concat_map_step(adaps@, dim_fn(d), i as int);
        }
        i = i + 1;
    }
    proof {
        lemma_take_all(adaps@);
    }
    errors
}

/// Messages for Periods without AdaptationSets, and for `@maxHeight` limits.
fn periods_height_msg_vec(ps: &Vec<Period>) -> (r: Vec<String>)
    ensures
        views(r@) == concat_map(ps@, period_height_fn()),
{
    let mut errors: Vec<String> = Vec::new();
    let mut i: usize = 0;
    assert(views(errors@) =~= concat_map(ps@.take(0), period_height_fn()));
    while i < ps.len()
        invariant
            i <= ps.len(),
            views(errors@) == concat_map(ps@.take(i as int), period_height_fn()),
        decreases ps.len() - i,
    {
        let p = &ps[i];
        if p.adaptations.len() == 0 {
            let mut m = "Period with @id ".to_owned();
            match &p.id {
                Some(id) => push_str(&mut m, id.as_str()),
                None => push_str(&mut m, "<unspecified>"),
            }
            push_str(&mut m, " contains no AdaptationSet elements");
            push_msg(&mut errors, m);
        }
        append_msgs(&mut errors, adaptations_dim_msg_vec(&p.adaptations, Dim::Height));
        proof {
            lemma_concat_map_step(ps@, period_height_fn(), i as int);
        }
        i = i + 1;
    }
    proof {
        lemma_take_all(ps@);
    }
    errors
}

/// Messages for the attribute limits of every AdaptationSet of every Period.
fn periods_dim_msg_vec(ps: &Vec<Period>, d: Dim) -> (r: Vec<String>)
    ensures
        views(r@) == concat_map(ps@, period_dim_fn(d)),
{
    let mut errors: Vec<String> = Vec::new();
    let mut i: usize = 0;
    assert(views(errors@) =~= concat_map(ps@.take(0), period_dim_fn(d)));
    while i < ps.len()
        invariant
            i <= ps.len(),
            views(errors@) == concat_map(ps@.take(i as int), period_dim_fn(d)),
        decreases ps.len() - i,
    {
        append_msgs(&mut errors, adaptations_dim_msg_vec(&ps[i].adaptations, d));
        proof {
            lemma_concat_map_step(ps@, period_dim_fn(d), i as int);
        }
        i = i + 1;
    }
    proof {
        lemma_take_all(ps@);
    }
    errors
}

/// Messages for the BaseURLs that fail the URL check.
fn base_url_msg_vec(bus: &Vec<BaseURL>) -> (r: Vec<String>)
    ensures
        views(r@) == concat_map(bus@, base_url_fn()),
{
    let mut errors: Vec<String> = Vec::new();
    let mut i: usize = 0;
    assert(views(errors@) =~= concat_map(bus@.take(0), base_url_fn()));
    while i < bus.len()
        invariant
            i <= bus.len(),
            views(errors@) == concat_map(bus@.take(i as int), base_url_fn()),
        decreases bus.len() - i,
    {
        append_msgs(&mut errors, url_msg_vec(bus[i].base.as_str()));
        proof {
            lemma_concat_map_step(bus@, base_url_fn(), i as int);
        }
        i = i + 1;
    }
    proof {
        lemma_take_all(bus@);
    }
    errors
}

fn opt_template_conformity_msg_vec(st: &Option<SegmentTemplate>) -> (r: Vec<String>)
    ensures
        views(r@) == opt_template_conformity_msgs(*st),
{
    match st {
        Some(t) => check_segment_template_conformity(t),
        None => {
            let r: Vec<String> = Vec::new();
            assert(views(r@) =~= seq![]);
            r
        },
    }
}

fn segment_base_msg_vec(sb: &Option<SegmentBase>) -> (r: Vec<String>)
    ensures
        views(r@) == segment_base_msgs(*sb),
{
    let mut errors: Vec<String> = Vec::new();
    if let Some(b) = sb {
        append_msgs(&mut errors, opt_init_msg_vec(&b.Initialization));
        if let Some(ri) = &b.representation_index {
            append_msgs(&mut errors, opt_url_msg_vec(&ri.sourceURL));
        }
    }
    assert(views(errors@) =~= segment_base_msgs(*sb));
    errors
}

fn segment_list_msg_vec(sl: &Option<SegmentList>) -> (r: Vec<String>)
    ensures
        views(r@) == segment_list_msgs(*sl),
{
    let mut errors: Vec<String> = Vec::new();
    if let Some(l) = sl {
        append_msgs(&mut errors, opt_url_msg_vec(&l.href));
        append_msgs(&mut errors, opt_init_msg_vec(&l.Initialization));
        let sus = &l.segment_urls;
        let ghost head = views(errors@);
        let mut i: usize = 0;
        assert(views(errors@) =~= head + concat_map(sus@.take(0), segment_url_fn()));
        while i < sus.len()
            invariant
                i <= sus.len(),
                views(errors@) == head + concat_map(sus@.take(i as int), segment_url_fn()),
            decreases sus.len() - i,
        {
            append_msgs(&mut errors, opt_url_msg_vec(&sus[i].media));
            append_msgs(&mut errors, opt_url_msg_vec(&sus[i].index));
            proof {
                lemma_concat_map_step(sus@, segment_url_fn(), i as int);
            }
            i = i + 1;
        }
        proof {
            lemma_take_all(sus@);
        }
    }
    assert(views(errors@) =~= segment_list_msgs(*sl));
    errors
}

fn rep_url_msg_vec(r: &Representation) -> (out: Vec<String>)
    ensures
        views(out@) == (rep_url_fn())(*r),
{
    let mut errors = base_url_msg_vec(&r.BaseURL);
    append_msgs(&mut errors, segment_base_msg_vec(&r.SegmentBase));
    append_msgs(&mut errors, segment_list_msg_vec(&r.SegmentList));
    append_msgs(&mut errors, opt_template_conformity_msg_vec(&r.SegmentTemplate));
    errors
}

fn adaptation_url_msg_vec(a: &AdaptationSet) -> (out: Vec<String>)
    ensures
        views(out@) == (adaptation_url_fn())(*a),
{
    let mut errors = base_url_msg_vec(&a.BaseURL);
    append_msgs(&mut errors, opt_template_conformity_msg_vec(&a.SegmentTemplate));
    let reps = &a.representations;
    let ghost head = views(errors@);
    let mut i: usize = 0;
    assert(views(errors@) =~= head + concat_map(reps@.take(0), rep_url_fn()));
    while i < reps.len()
        invariant
            i <= reps.len(),
            views(errors@) == head + concat_map(reps@.take(i as int), rep_url_fn()),
        decreases reps.len() - i,
    {
        append_msgs(&mut errors, rep_url_msg_vec(&reps[i]));
        proof {
            lemma_concat_map_step(reps@, rep_url_fn(), i as int);
        }
        i = i + 1;
    }
    proof {
        lemma_take_all(reps@);
    }
    errors
}

fn period_url_msg_vec(p: &Period) -> (out: Vec<String>)
    ensures
        views(out@) == (period_url_fn())(*p),
{
    let mut errors = base_url_msg_vec(&p.BaseURL);
    let adaps = &p.adaptations;
    let ghost head = views(errors@);
    let mut i: usize = 0;
    assert(views(errors@) =~= head + concat_map(adaps@.take(0), adaptation_url_fn()));
    while i < adaps.len()
        invariant
            i <= adaps.len(),
            views(errors@) == head + concat_map(adaps@.take(i as int), adaptation_url_fn()),
        decreases adaps.len() - i,
    {
        append_msgs(&mut errors, adaptation_url_msg_vec(&adaps[i]));
        proof {
            lemma_concat_map_step(adaps@, adaptation_url_fn(), i as int);
        }
        i = i + 1;
    }
    proof {
        lemma_take_all(adaps@);
    }
    errors
}

fn periods_url_msg_vec(ps: &Vec<Period>) -> (r: Vec<String>)
    ensures
        views(r@) == concat_map(ps@, period_url_fn()),
{
    let mut errors: Vec<String> = Vec::new();
    let mut i: usize = 0;
    assert(views(errors@) =~= concat_map(ps@.take(0), period_url_fn()));
    while i < ps.len()
        invariant
            i <= ps.len(),
            views(errors@) == concat_map(ps@.take(i as int), period_url_fn()),
        decreases ps.len() - i,
    {
        append_msgs(&mut errors, period_url_msg_vec(&ps[i]));
        proof {
            lemma_concat_map_step(ps@, period_url_fn(), i as int);
        }
        i = i + 1;
    }
    proof {
        lemma_take_all(ps@);
    }
    errors
}

fn program_information_msg_vec(pis: &Vec<ProgramInformation>) -> (r: Vec<String>)
    ensures
        views(r@) == concat_map(pis@, program_information_fn()),
{
    let mut errors: Vec<String> = Vec::new();
    let mut i: usize = 0;
    assert(views(errors@) =~= concat_map(pis@.take(0), program_information_fn()));
    while i < pis.len()
        invariant
            i <= pis.len(),
            views(errors@) == concat_map(pis@.take(i as int), program_information_fn()),
        decreases pis.len() - i,
    {
        append_msgs(&mut errors, opt_url_msg_vec(&pis[i].moreInformationURL));
        proof {
            lemma_concat_map_step(pis@, program_information_fn(), i as int);
        }
        i = i + 1;
    }
    proof {
        lemma_take_all(pis@);
    }
    errors
}

/// Returns the list of DASH conformity errors in the manifest `mpd`, in this order: Periods
/// without AdaptationSets and `@maxHeight` limits, `@maxWidth` limits, `@maxBandwidth` limits,
/// segments longer than `@maxSegmentDuration`, invalid BaseURLs of the MPD, then for each Period
/// its invalid URLs and template misuses, then invalid ProgramInformation URLs.
pub fn check_conformity(mpd: &MPD) -> (r: Vec<String>)
    requires
        timescales_ok(*mpd),
    ensures
        views(r@) == conformity_msgs(*mpd),
{
    let mut errors = periods_height_msg_vec(&mpd.periods);
    append_msgs(&mut errors, periods_dim_msg_vec(&mpd.periods, Dim::Width));
    append_msgs(&mut errors, periods_dim_msg_vec(&mpd.periods, Dim::Bandwidth));
    if let Some(max_seg_duration) = &mpd.maxSegmentDuration {
        append_msgs(&mut errors, periods_duration_msg_vec(mpd, max_seg_duration));
    } else {
        assert(views(errors@) + seq![] =~= views(errors@));
    }
    append_msgs(&mut errors, base_url_msg_vec(&mpd.base_url));
    append_msgs(&mut errors, periods_url_msg_vec(&mpd.periods));
    append_msgs(&mut errors, program_information_msg_vec(&mpd.ProgramInformation));
    errors
}

} // verus!
