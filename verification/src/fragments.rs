//! Media fragments to download: a URL, an optional byte range, whether it is an initialization
//! segment, and an optional timeout.

use vstd::prelude::*;
use crate::DashMpdError;
use crate::duration::XsDuration;
use crate::urls::{spec_merge_baseurls, merge_baseurls};
use crate::template::{
    TemplateParams, resolve_template_values, resolve_url_template, bandwidth_template, lacks_char,
    lemma_resolve_bandwidth_template, representation_id_template,
    lemma_resolve_representation_id_template,
};
use crate::text::opt_view;
use crate::messages::views;
use crate::mpd::{SegmentList, SegmentURL, Initialization};
use crate::split::{range_fields, range_error_msg, parse_range};

verus! {

/// A fragment of media content to download, for the Period numbered `period`.
#[derive(Debug, Clone)]
pub struct MediaFragment {
    pub period: u8,
    pub url: String,
    pub start_byte: Option<u64>,
    pub end_byte: Option<u64>,
    pub is_init: bool,
    pub timeout: Option<XsDuration>,
}

/// Builds a `MediaFragment`: by default no byte range, not an initialization segment, and no
/// timeout.
#[derive(Debug, Clone)]
pub struct MediaFragmentBuilder {
    pub period: u8,
    pub url: String,
    pub start_byte: Option<u64>,
    pub end_byte: Option<u64>,
    pub is_init: bool,
    pub timeout: Option<XsDuration>,
}

impl MediaFragmentBuilder {
    pub fn new(period: u8, url: String) -> (b: MediaFragmentBuilder)
        ensures
            b.period == period,
            b.url == url,
            b.start_byte is None,
            b.end_byte is None,
            !b.is_init,
            b.timeout is None,
    {
        MediaFragmentBuilder { period, url, start_byte: None, end_byte: None, is_init: false, timeout: None }
    }

    pub fn with_range(self, start_byte: Option<u64>, end_byte: Option<u64>) -> (b: MediaFragmentBuilder)
        ensures
            b == (MediaFragmentBuilder { start_byte, end_byte, ..self }),
    {
        let mut b = self;
        b.start_byte = start_byte;
        b.end_byte = end_byte;
        b
    }

    pub fn with_timeout(self, timeout: XsDuration) -> (b: MediaFragmentBuilder)
        ensures
            b == (MediaFragmentBuilder { timeout: Some(timeout), ..self }),
    {
        let mut b = self;
        b.timeout = Some(timeout);
        b
    }

    pub fn set_init(self) -> (b: MediaFragmentBuilder)
        ensures
            b == (MediaFragmentBuilder { is_init: true, ..self }),
    {
        let mut b = self;
        b.is_init = true;
        b
    }

    pub fn build(self) -> (f: MediaFragment)
        ensures
            f.period == self.period,
            f.url == self.url,
            f.start_byte == self.start_byte,
            f.end_byte == self.end_byte,
            f.is_init == self.is_init,
            f.timeout == self.timeout,
    {
        MediaFragment {
            period: self.period,
            url: self.url,
            start_byte: self.start_byte,
            end_byte: self.end_byte,
            is_init: self.is_init,
            timeout: self.timeout,
        }
    }
}

/// What a fragment is: its Period, URL, byte range, whether it is an initialization segment,
/// and its timeout.
pub type FragmentView = (u8, Seq<char>, Option<u64>, Option<u64>, bool, Option<XsDuration>);

pub open spec fn fragment_view(f: MediaFragment) -> FragmentView {
    (f.period, f.url@, f.start_byte, f.end_byte, f.is_init, f.timeout)
}

pub open spec fn fragment_views(fs: Seq<MediaFragment>) -> Seq<FragmentView> {
    fs.map_values(|f: MediaFragment| fragment_view(f))
}

/// A media segment of the Period, fetched whole.
pub open spec fn plain_fragment(period: u8, url: Seq<char>) -> FragmentView {
    (period, url, None, None, false, None)
}

/// The URLs of the paths merged into the base URL, in order; the first failure is the outcome.
pub open spec fn spec_merge_all(base: Seq<char>, paths: Seq<Seq<char>>) -> Result<Seq<Seq<char>>, Seq<char>>
    decreases paths.len(),
{
    if paths.len() == 0 {
        Ok(seq![])
    } else {
        match spec_merge_all(base, paths.drop_last()) {
            Err(e) => Err(e),
            Ok(us) => match spec_merge_baseurls(base, paths.last()) {
                Ok(u) => Ok(us.push(u)),
                Err(e) => Err(e),
            },
        }
    }
}

proof fn lemma_merge_all_error(base: Seq<char>, paths: Seq<Seq<char>>, i: int)
    requires
        0 <= i < paths.len(),
        spec_merge_all(base, paths.take(i + 1)) is Err,
    ensures
        spec_merge_all(base, paths) == spec_merge_all(base, paths.take(i + 1)),
    decreases paths.len(),
{
    if i + 1 < paths.len() {
        assert(paths.drop_last().take(i + 1) =~= paths.take(i + 1));
        lemma_merge_all_error(base, paths.drop_last(), i);
    } else {
        assert(paths.take(i + 1) =~= paths);
    }
}

/// The URLs of the paths merged into the base URL, or the first error.
pub fn merge_all(base: &str, paths: &Vec<String>) -> (r: Result<Vec<String>, DashMpdError>)
    ensures
        match spec_merge_all(base@, views(paths@)) {
            Ok(us) => r matches Ok(v) && views(v@) == us,
            Err(e) => r matches Err(DashMpdError::Parsing(m)) && m@ == e,
        },
{
    let ghost all = views(paths@);
    let mut urls: Vec<String> = Vec::new();
    let mut i: usize = 0;
    assert(all.take(0) =~= seq![]);
    assert(views(urls@) =~= seq![]);
    while i < paths.len()
        invariant
            i <= paths.len(),
            all == views(paths@),
            spec_merge_all(base@, all.take(i as int)) == Ok::<Seq<Seq<char>>, Seq<char>>(views(urls@)),
        decreases paths.len() - i,
    {
        proof {
            assert(all.take(i + 1).drop_last() =~= all.take(i as int));
            assert(all.take(i + 1).last() == paths@[i as int]@);
        }
        match merge_baseurls(base, paths[i].as_str()) {
            Ok(u) => {
                crate::messages::push_msg(&mut urls, u);
            },
            Err(e) => {
                proof {
                    lemma_merge_all_error(base@, all, i as int);
                }
                return Err(e);
            },
        }
        i = i + 1;
    }
    assert(all.take(paths.len() as int) =~= all);
    Ok(urls)
}

/// The fragments of a Representation addressed by a SegmentTemplate: the initialization segment
/// (its template resolved for the Representation's id and bandwidth), when there is one, then
/// the media segments at the given paths, each merged into the base URL; the first URL that
/// cannot be merged is the outcome.
pub open spec fn spec_template_fragments(
    period: u8,
    base: Seq<char>,
    init: Option<Seq<char>>,
    representation_id: Option<Seq<char>>,
    bandwidth: Option<Seq<char>>,
    paths: Seq<Seq<char>>,
) -> Result<Seq<FragmentView>, Seq<char>> {
    let head = match init {
        None => Ok(seq![]),
        Some(i) => match spec_merge_baseurls(
            base,
            resolve_template_values(i, representation_id, None, None, bandwidth),
        ) {
            Ok(u) => Ok(seq![(period, u, None, None, true, None)]),
            Err(e) => Err(e),
        },
    };
    match head {
        Err(e) => Err(e),
        Ok(h) => match spec_merge_all(base, paths) {
            Err(e) => Err(e),
            Ok(us) => Ok(h + us.map_values(|u: Seq<char>| plain_fragment(period, u))),
        },
    }
}

/// The fragments to download for a Representation addressed by a SegmentTemplate, from the
/// initialization template and the paths of its media segments.
pub fn template_fragments(
    period: u8,
    base_url: &str,
    init: &Option<String>,
    representation_id: &Option<String>,
    bandwidth: &Option<String>,
    paths: &Vec<String>,
) -> (r: Result<Vec<MediaFragment>, DashMpdError>)
    ensures
        match spec_template_fragments(
            period,
            base_url@,
            opt_view(*init),
            opt_view(*representation_id),
            opt_view(*bandwidth),
            views(paths@),
        ) {
            Ok(fs) => r matches Ok(v) && fragment_views(v@) == fs,
            Err(e) => r matches Err(DashMpdError::Parsing(m)) && m@ == e,
        },
{
    let mut fragments: Vec<MediaFragment> = Vec::new();
    if let Some(i) = init {
        let dict = TemplateParams {
            representation_id: representation_id.clone(),
            number: None,
            time: None,
            bandwidth: bandwidth.clone(),
        };
        let path = resolve_url_template(i.as_str(), &dict);
        let u = match merge_baseurls(base_url, path.as_str()) {
            Ok(u) => u,
            Err(e) => return Err(e),
        };
        let f = MediaFragmentBuilder::new(period, u).set_init().build();
        fragments.push(f);
    }
    let ghost head = fragment_views(fragments@);
    let urls = match merge_all(base_url, paths) {
        Ok(us) => us,
        Err(e) => return Err(e),
    };
    let ghost us = views(urls@);
    let mut k: usize = 0;
    assert(fragment_views(fragments@) =~= head + us.take(0).map_values(|u: Seq<char>| plain_fragment(period, u)));
    while k < urls.len()
        invariant
            k <= urls.len(),
            us == views(urls@),
            fragment_views(fragments@) == head + us.take(k as int).map_values(
                |u: Seq<char>| plain_fragment(period, u),
            ),
        decreases urls.len() - k,
    {
        let f = MediaFragmentBuilder::new(period, urls[k].clone()).build();
        let ghost before = fragments@;
        fragments.push(f);
        assert(fragment_views(fragments@) =~= fragment_views(before).push(fragment_view(f)));
        assert(us.take(k + 1).map_values(|u: Seq<char>| plain_fragment(period, u)) =~= us.take(
            k as int,
        ).map_values(|u: Seq<char>| plain_fragment(period, u)).push(plain_fragment(period, us[k as int])));
        k = k + 1;
    }
    assert(us.take(urls.len() as int) =~= us);
    Ok(fragments)
}

/// The initialization segment of a SegmentTemplate is named by its `@initialization` template
/// resolved for the Representation: where the template is `pre + "$Bandwidth$" + suf` and the
/// Representation has `@bandwidth` b, the first fragment is the initialization fragment whose URL
/// is the base URL merged with `pre + b + suf` (the identifier replaced by b, none left), and the
/// list fails exactly where that merge fails.
pub proof fn lemma_init_bandwidth_resolved(
    period: u8,
    base: Seq<char>,
    pre: Seq<char>,
    suf: Seq<char>,
    representation_id: Option<Seq<char>>,
    b: Seq<char>,
    paths: Seq<Seq<char>>,
)
    requires
        lacks_char(pre, '$'),
        lacks_char(suf, '$'),
        lacks_char(b, '$'),
    ensures
        spec_template_fragments(period, base, Some(bandwidth_template(pre, suf)), representation_id, Some(b), paths)
            matches Ok(fs) ==> fs.len() >= 1 && fs[0].4 && spec_merge_baseurls(base, pre + b + suf) == Ok::<
            Seq<char>,
            Seq<char>,
        >(fs[0].1),
        spec_merge_baseurls(base, pre + b + suf) is Err ==> spec_template_fragments(
            period,
            base,
            Some(bandwidth_template(pre, suf)),
            representation_id,
            Some(b),
            paths,
        ) is Err,
{
    lemma_resolve_bandwidth_template(pre, suf, representation_id, b);
    let r = spec_template_fragments(period, base, Some(bandwidth_template(pre, suf)), representation_id, Some(b), paths);
    if let Ok(fs) = r {
        if let Ok(u) = spec_merge_baseurls(base, pre + b + suf) {
            if let Ok(us) = spec_merge_all(base, paths) {
                let h = seq![(period, u, None::<u64>, None::<u64>, true, None::<XsDuration>)];
                assert(fs == h + us.map_values(|x: Seq<char>| plain_fragment(period, x)));
                assert(fs[0] == h[0]);
            }
        }
    }
}

/// Likewise for the Representation's `@id`: where the `@initialization` template is
/// `pre + "$RepresentationID$" + suf` and the Representation's id is v, the first fragment is the
/// initialization fragment whose URL is the base URL merged with `pre + v + suf`, and the list
/// fails exactly where that merge fails.
pub proof fn lemma_init_representation_id_resolved(
    period: u8,
    base: Seq<char>,
    pre: Seq<char>,
    suf: Seq<char>,
    v: Seq<char>,
    bandwidth: Option<Seq<char>>,
    paths: Seq<Seq<char>>,
)
    requires
        lacks_char(pre, '$'),
        lacks_char(suf, '$'),
        lacks_char(v, '$'),
    ensures
        spec_template_fragments(period, base, Some(representation_id_template(pre, suf)), Some(v), bandwidth, paths)
            matches Ok(fs) ==> fs.len() >= 1 && fs[0].4 && spec_merge_baseurls(base, pre + v + suf) == Ok::<
            Seq<char>,
            Seq<char>,
        >(fs[0].1),
        spec_merge_baseurls(base, pre + v + suf) is Err ==> spec_template_fragments(
            period,
            base,
            Some(representation_id_template(pre, suf)),
            Some(v),
            bandwidth,
            paths,
        ) is Err,
{
    lemma_resolve_representation_id_template(pre, suf, v, bandwidth);
    let r = spec_template_fragments(period, base, Some(representation_id_template(pre, suf)), Some(v), bandwidth, paths);
    if let Ok(fs) = r {
        if let Ok(u) = spec_merge_baseurls(base, pre + v + suf) {
            if let Ok(us) = spec_merge_all(base, paths) {
                let h = seq![(period, u, None::<u64>, None::<u64>, true, None::<XsDuration>)];
                assert(fs == h + us.map_values(|x: Seq<char>| plain_fragment(period, x)));
                assert(fs[0] == h[0]);
            }
        }
    }
}

/// Merging all paths succeeds exactly when each path merges, and then gives one URL per path, in
/// order: the merge of that path.
pub proof fn lemma_merge_all_each(base: Seq<char>, paths: Seq<Seq<char>>)
    ensures
        spec_merge_all(base, paths) is Ok <==> forall|j: int|
            0 <= j < paths.len() ==> (#[trigger] spec_merge_baseurls(base, paths[j])) is Ok,
        spec_merge_all(base, paths) matches Ok(us) ==> us.len() == paths.len() && forall|j: int|
            0 <= j < paths.len() ==> #[trigger] spec_merge_baseurls(base, paths[j]) == Ok::<
                Seq<char>,
                Seq<char>,
            >(us[j]),
    decreases paths.len(),
{
    if paths.len() > 0 {
        let init = paths.drop_last();
        lemma_merge_all_each(base, init);
        assert forall|j: int| 0 <= j < init.len() implies init[j] == paths[j] by {}
        if !(spec_merge_all(base, paths) is Ok) {
            if spec_merge_all(base, init) is Err {
                let j = choose|j: int| 0 <= j < init.len() && !(#[trigger] spec_merge_baseurls(base, init[j]) is Ok);
                assert(!(spec_merge_baseurls(base, paths[j]) is Ok));
            } else {
                assert(!(spec_merge_baseurls(base, paths[paths.len() - 1]) is Ok));
            }
        }
        if spec_merge_all(base, paths) is Ok {
            assert forall|j: int| 0 <= j < paths.len() implies (#[trigger] spec_merge_baseurls(base, paths[j])) is Ok by {
                if j < init.len() {
                    assert(spec_merge_baseurls(base, init[j]) is Ok);
                }
            }
        }
    }
}

/// The fragments of a SegmentTemplate: the initialization fragment first where there is an
/// initialization template, then one media fragment per path, in order, each with the URL that
/// merging its path gives; the list is given exactly when every merge succeeds.
pub proof fn lemma_template_fragments_shape(
    period: u8,
    base: Seq<char>,
    init: Option<Seq<char>>,
    representation_id: Option<Seq<char>>,
    bandwidth: Option<Seq<char>>,
    paths: Seq<Seq<char>>,
)
    ensures
        spec_template_fragments(period, base, init, representation_id, bandwidth, paths) matches Ok(fs) ==> {
            let off: int = if init is Some { 1 } else { 0 };
            &&& fs.len() == off + paths.len()
            &&& init is Some ==> fs[0].0 == period && fs[0].4
            &&& forall|j: int|
                0 <= j < paths.len() ==> fs[off + j].0 == period && !fs[off + j].4 && #[trigger] spec_merge_baseurls(
                    base,
                    paths[j],
                ) == Ok::<Seq<char>, Seq<char>>(fs[off + j].1)
        },
        init is None ==> (spec_template_fragments(period, base, init, representation_id, bandwidth, paths) is Ok
            <==> forall|j: int| 0 <= j < paths.len() ==> (#[trigger] spec_merge_baseurls(base, paths[j])) is Ok),
{
    lemma_merge_all_each(base, paths);
    let r = spec_template_fragments(period, base, init, representation_id, bandwidth, paths);
    if let Ok(fs) = r {
        let off: int = if init is Some { 1 } else { 0 };
        let us = spec_merge_all(base, paths)->Ok_0;
        let h = fs.take(off);
        let m = us.map_values(|u: Seq<char>| plain_fragment(period, u));
        assert(fs == fs.take(off) + m);
        assert forall|j: int| 0 <= j < paths.len() implies fs[off + j].0 == period && !fs[off + j].4
            && #[trigger] spec_merge_baseurls(base, paths[j]) == Ok::<Seq<char>, Seq<char>>(fs[off + j].1) by {
            assert(fs[off + j] == m[j]);
        }
    }
}

/// The byte range given by an optional range specifier.
pub open spec fn opt_range(r: Option<String>) -> Result<(Option<u64>, Option<u64>), Seq<char>> {
    match r {
        None => Ok((None, None)),
        Some(spec_str) => match range_fields(spec_str@) {
            Some((s, e)) => Ok((Some(s), Some(e))),
            None => Err(range_error_msg(spec_str@)),
        },
    }
}

/// The initialization fragment of a SegmentList: with an Initialization element, its range and
/// its `@sourceURL` (resolved for the Representation's id and bandwidth and merged into the base
/// URL), or the base URL itself when it has no `@sourceURL`.
pub open spec fn spec_list_init_fragment(
    period: u8,
    base: Seq<char>,
    init: Option<Initialization>,
    representation_id: Option<Seq<char>>,
    bandwidth: Option<Seq<char>>,
) -> Result<Seq<FragmentView>, Seq<char>> {
    match init {
        None => Ok(seq![]),
        Some(i) => match opt_range(i.range) {
            Err(e) => Err(e),
            Ok((s, e)) => match i.sourceURL {
                Some(su) => match spec_merge_baseurls(
                    base,
                    resolve_template_values(su@, representation_id, None, None, bandwidth),
                ) {
                    Ok(u) => Ok(seq![(period, u, s, e, true, None)]),
                    Err(x) => Err(x),
                },
                None => Ok(seq![(period, base, s, e, true, None)]),
            },
        },
    }
}

/// The fragment of a SegmentURL element: its `@mediaRange`, and its `@media` merged into the
/// base URL, or else the fallback BaseURL when there is one.
pub open spec fn spec_segment_url_fragment(
    period: u8,
    base: Seq<char>,
    su: SegmentURL,
    fallback: Option<Seq<char>>,
) -> Result<Seq<FragmentView>, Seq<char>> {
    match opt_range(su.mediaRange) {
        Err(e) => Err(e),
        Ok((s, e)) => {
            let target = match su.media {
                Some(m) => Some(m@),
                None => fallback,
            };
            match target {
                Some(t) => match spec_merge_baseurls(base, t) {
                    Ok(u) => Ok(seq![(period, u, s, e, false, None)]),
                    Err(x) => Err(x),
                },
                None => Ok(seq![]),
            }
        },
    }
}

/// The fragments of the SegmentURL elements, in order; the first failure is the outcome.
pub open spec fn spec_segment_urls_fragments(
    period: u8,
    base: Seq<char>,
    sus: Seq<SegmentURL>,
    fallback: Option<Seq<char>>,
) -> Result<Seq<FragmentView>, Seq<char>>
    decreases sus.len(),
{
    if sus.len() == 0 {
        Ok(seq![])
    } else {
        match spec_segment_urls_fragments(period, base, sus.drop_last(), fallback) {
            Err(e) => Err(e),
            Ok(fs) => match spec_segment_url_fragment(period, base, sus.last(), fallback) {
                Ok(f) => Ok(fs + f),
                Err(e) => Err(e),
            },
        }
    }
}

/// The fragments of a Representation addressed by a SegmentList: its initialization fragment,
/// then one fragment per SegmentURL.
pub open spec fn spec_segment_list_fragments(
    period: u8,
    base: Seq<char>,
    sl: SegmentList,
    representation_id: Option<Seq<char>>,
    bandwidth: Option<Seq<char>>,
    fallback: Option<Seq<char>>,
) -> Result<Seq<FragmentView>, Seq<char>> {
    match spec_list_init_fragment(period, base, sl.Initialization, representation_id, bandwidth) {
        Err(e) => Err(e),
        Ok(h) => match spec_segment_urls_fragments(period, base, sl.segment_urls@, fallback) {
            Err(e) => Err(e),
            Ok(fs) => Ok(h + fs),
        },
    }
}

pub(crate) fn range_of(r: &Option<String>) -> (out: Result<(Option<u64>, Option<u64>), DashMpdError>)
    ensures
        match opt_range(*r) {
            Ok(p) => out == Ok::<(Option<u64>, Option<u64>), DashMpdError>(p),
            Err(e) => out matches Err(DashMpdError::Parsing(m)) && m@ == e,
        },
{
    match r {
        None => Ok((None, None)),
        Some(spec_str) => match parse_range(spec_str.as_str()) {
            Ok((s, e)) => Ok((Some(s), Some(e))),
            Err(e) => Err(e),
        },
    }
}

proof fn lemma_segment_urls_error(
    period: u8,
    base: Seq<char>,
    sus: Seq<SegmentURL>,
    fallback: Option<Seq<char>>,
    i: int,
)
    requires
        0 <= i < sus.len(),
        spec_segment_urls_fragments(period, base, sus.take(i + 1), fallback) is Err,
    ensures
        spec_segment_urls_fragments(period, base, sus, fallback) == spec_segment_urls_fragments(
            period,
            base,
            sus.take(i + 1),
            fallback,
        ),
    decreases sus.len(),
{
    if i + 1 < sus.len() {
        assert(sus.drop_last().take(i + 1) =~= sus.take(i + 1));
        lemma_segment_urls_error(period, base, sus.drop_last(), fallback, i);
    } else {
        assert(sus.take(i + 1) =~= sus);
    }
}

/// Appends the fragments of the SegmentURL elements `sus` to `fragments`, or stops at the first
/// failure.
pub fn append_segment_url_fragments(
    fragments: &mut Vec<MediaFragment>,
    period: u8,
    base_url: &str,
    sus: &Vec<SegmentURL>,
    fallback: &Option<String>,
) -> (r: Result<(), DashMpdError>)
    ensures
        match spec_segment_urls_fragments(period, base_url@, sus@, opt_view(*fallback)) {
            Ok(fs) => r is Ok && fragment_views(final(fragments)@) == fragment_views(old(fragments)@) + fs,
            Err(e) => r matches Err(DashMpdError::Parsing(m)) && m@ == e,
        },
{
    let ghost head = fragment_views(fragments@);
    let ghost fb = opt_view(*fallback);
    let mut i: usize = 0;
    assert(sus@.take(0) =~= seq![]);
    assert(fragment_views(fragments@) =~= head + seq![]);
    while i < sus.len()
        invariant
            i <= sus.len(),
            fb == opt_view(*fallback),
            spec_segment_urls_fragments(period, base_url@, sus@.take(i as int), fb) matches Ok(fs)
                && fragment_views(fragments@) == head + fs,
        decreases sus.len() - i,
    {
        proof {
            assert(sus@.take(i + 1).drop_last() =~= sus@.take(i as int));
            assert(sus@.take(i + 1).last() == sus@[i as int]);
        }
        let su = &sus[i];
        let (s, e) = match range_of(&su.mediaRange) {
            Ok(p) => p,
            Err(x) => {
                proof {
                    lemma_segment_urls_error(period, base_url@, sus@, fb, i as int);
                }
                return Err(x);
            },
        };
        let target: Option<&String> = match &su.media {
            Some(m) => Some(m),
            None => match fallback {
                Some(b) => Some(b),
                None => None,
            },
        };
        if let Some(t) = target {
            match merge_baseurls(base_url, t.as_str()) {
                Ok(u) => {
                    let f = MediaFragmentBuilder::new(period, u).with_range(s, e).build();
                    let ghost before = fragments@;
                    fragments.push(f);
                    assert(fragment_views(fragments@) =~= fragment_views(before).push(fragment_view(f)));
                },
                Err(x) => {
                    proof {
                        lemma_segment_urls_error(period, base_url@, sus@, fb, i as int);
                    }
                    return Err(x);
                },
            }
        }
        i = i + 1;
    }
    assert(sus@.take(sus.len() as int) =~= sus@);
    Ok(())
}

/// The initialization fragment of a SegmentList or a SegmentBase (see `spec_list_init_fragment`).
pub fn list_init_fragments(
    period: u8,
    base_url: &str,
    init: &Option<Initialization>,
    representation_id: &Option<String>,
    bandwidth: &Option<String>,
) -> (r: Result<Vec<MediaFragment>, DashMpdError>)
    ensures
        match spec_list_init_fragment(period, base_url@, *init, opt_view(*representation_id), opt_view(*bandwidth)) {
            Ok(fs) => r matches Ok(v) && fragment_views(v@) == fs,
            Err(e) => r matches Err(DashMpdError::Parsing(m)) && m@ == e,
        },
{
    let mut fragments: Vec<MediaFragment> = Vec::new();
    if let Some(init) = init {
        let (s, e) = match range_of(&init.range) {
            Ok(p) => p,
            Err(x) => return Err(x),
        };
        let u = match &init.sourceURL {
            Some(su) => {
                let dict = TemplateParams {
                    representation_id: representation_id.clone(),
                    number: None,
                    time: None,
                    bandwidth: bandwidth.clone(),
                };
                let path = resolve_url_template(su.as_str(), &dict);
                match merge_baseurls(base_url, path.as_str()) {
                    Ok(u) => u,
                    Err(x) => return Err(x),
                }
            },
            None => base_url.to_owned(),
        };
        let f = MediaFragmentBuilder::new(period, u).with_range(s, e).set_init().build();
        fragments.push(f);
        assert(fragment_views(fragments@) =~= seq![fragment_view(f)]);
    } else {
        assert(fragment_views(fragments@) =~= seq![]);
    }
    Ok(fragments)
}

/// The fragments to download for a Representation addressed by a SegmentList, given the
/// Representation's id and bandwidth (for the initialization template) and the BaseURL to use
/// for SegmentURL elements without `@media`.
pub fn segment_list_fragments(
    period: u8,
    base_url: &str,
    sl: &SegmentList,
    representation_id: &Option<String>,
    bandwidth: &Option<String>,
    fallback: &Option<String>,
) -> (r: Result<Vec<MediaFragment>, DashMpdError>)
    ensures
        match spec_segment_list_fragments(
            period,
            base_url@,
            *sl,
            opt_view(*representation_id),
            opt_view(*bandwidth),
            opt_view(*fallback),
        ) {
            Ok(fs) => r matches Ok(v) && fragment_views(v@) == fs,
            Err(e) => r matches Err(DashMpdError::Parsing(m)) && m@ == e,
        },
{
    let mut fragments = match list_init_fragments(period, base_url, &sl.Initialization, representation_id, bandwidth) {
        Ok(v) => v,
        Err(x) => return Err(x),
    };
    match append_segment_url_fragments(&mut fragments, period, base_url, &sl.segment_urls, fallback) {
        Ok(()) => Ok(fragments),
        Err(x) => Err(x),
    }
}

} // verus!
