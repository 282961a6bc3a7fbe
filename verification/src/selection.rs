//! Choice of the AdaptationSets and of the Representation to download, following the user's
//! language, role and quality preferences.

use vstd::prelude::*;
use vstd::relations::{sorted_by, total_ordering};
use vstd::utf8::{encode_utf8, is_char_boundary};
use crate::mpd::{AdaptationSet, Representation, Role, ContentComponent};
use crate::text::{str_eq, opt_view};
use crate::messages::{
    views, concat_map, lemma_concat_map_step, lemma_take_all, push_msg, append_msgs, lemma_concat_map_contains,
    lemma_concat_map_member, lemma_add_contains,
};

verus! {

broadcast use vstd::seq_lib::group_to_multiset_ensures;

/// Preference for retrieving the media representation with the highest quality (and highest
/// file size), the lowest quality (and lowest file size), or one in between.
#[derive(Debug, PartialEq, Eq, Clone, Copy, Default, Structural)]
pub enum QualityPreference {
    #[default]
    Lowest,
    Intermediate,
    Highest,
}

// ---------------------------------------------------------------------------------------------
// Language

/// The first two bytes of the UTF-8 encoding of `s` end on a character boundary (so that the
/// string can be sliced there).
pub open spec fn two_byte_prefix_ok(s: Seq<char>) -> bool {
    is_char_boundary(encode_utf8(s), 2)
}

/// The distance between an AdaptationSet's `@lang` and the preferred language: 0 when equal,
/// 5 when their first two bytes are equal, 100 otherwise or when there is no `@lang`.
pub open spec fn spec_lang_distance(lang: Option<Seq<char>>, pref: Seq<char>) -> u8 {
    match lang {
        Some(l) => if l == pref {
            0
        } else if encode_utf8(l).subrange(0, 2) == encode_utf8(pref).subrange(0, 2) {
            5
        } else {
            100
        },
        None => 100,
    }
}

/// The language distance is defined: an AdaptationSet whose `@lang` differs from the preference
/// has, as the preference has, a two-byte prefix that ends on a character boundary.
pub open spec fn lang_distance_defined(lang: Option<String>, pref: Seq<char>) -> bool {
    match lang {
        Some(l) => l@ != pref ==> two_byte_prefix_ok(l@) && two_byte_prefix_ok(pref),
        None => true,
    }
}

/// Whether the language distance of an AdaptationSet with this `@lang` is defined (see
/// `lang_distance_defined`).
pub fn lang_distance_defined_check(lang: &Option<String>, pref: &str) -> (r: bool)
    ensures
        r == lang_distance_defined(*lang, pref@),
{
    match lang {
        None => true,
        Some(l) => str_eq(l.as_str(), pref) || (l.as_str().is_char_boundary(2) && pref.is_char_boundary(2)),
    }
}

/// Whether the language distance of every AdaptationSet is defined.
pub fn lang_distances_defined(adaptations: &Vec<&AdaptationSet>, pref: &str) -> (r: bool)
    ensures
        r == forall|i: int| 0 <= i < adaptations.len() ==> lang_distance_defined((#[trigger] adaptations@[i]).lang, pref@),
{
    let mut i: usize = 0;
    while i < adaptations.len()
        invariant
            i <= adaptations.len(),
            forall|k: int| 0 <= k < i ==> lang_distance_defined((#[trigger] adaptations@[k]).lang, pref@),
        decreases adaptations.len() - i,
    {
        if !lang_distance_defined_check(&adaptations[i].lang, pref) {
            return false;
        }
        i = i + 1;
    }
    true
}

/// Whether two byte strings are equal.
fn bytes_eq(a: &[u8], b: &[u8]) -> (r: bool)
    ensures
        r == (a@ == b@),
{
    if a.len() != b.len() {
        return false;
    }
    let mut i: usize = 0;
    while i < a.len()
        invariant
            a.len() == b.len(),
            i <= a.len(),
            forall|k: int| 0 <= k < i ==> a@[k] == b@[k],
        decreases a.len() - i,
    {
        if a[i] != b[i] {
            return false;
        }
        i = i + 1;
    }
    assert(a@ =~= b@);
    true
}

/// The first two bytes of `s`, which end on a character boundary.
fn first_two_bytes(s: &str) -> (r: &str)
    requires
        two_byte_prefix_ok(s@),
    ensures
        encode_utf8(r@) == encode_utf8(s@).subrange(0, 2),
{
    let (head, _tail) = s.split_at(2);
    head
}

/// A measure of the distance between this AdaptationSet's `@lang` attribute and the preferred
/// language code: 0 for the same code, 5 for the same first two bytes, 100 otherwise and when
/// there is no `@lang` attribute.
pub fn adaptation_lang_distance(a: &AdaptationSet, language_preference: &str) -> (r: u8)
    requires
        lang_distance_defined(a.lang, language_preference@),
    ensures
        r == spec_lang_distance(opt_view(a.lang), language_preference@),
{
    if let Some(lang) = &a.lang {
        if str_eq(lang.as_str(), language_preference) {
            return 0;
        }
        let l2 = first_two_bytes(lang.as_str());
        let p2 = first_two_bytes(language_preference);
        if bytes_eq(l2.as_bytes(), p2.as_bytes()) {
            return 5;
        }
        100
    } else {
        100
    }
}

// ---------------------------------------------------------------------------------------------
// Roles

/// The value of a Role element, if it has one.
pub open spec fn role_value_fn() -> spec_fn(Role) -> Seq<Seq<char>> {
    |r: Role|
        match r.value {
            Some(v) => seq![v@],
            None => seq![],
        }
}

pub open spec fn component_roles_fn() -> spec_fn(ContentComponent) -> Seq<Seq<char>> {
    |cc: ContentComponent| concat_map(cc.Role@, role_value_fn())
}

/// The role values of an AdaptationSet: those of its own Role elements, then those of the Role
/// elements of its ContentComponents.
pub open spec fn spec_adaptation_roles(a: AdaptationSet) -> Seq<Seq<char>> {
    concat_map(a.Role@, role_value_fn()) + concat_map(a.ContentComponent@, component_roles_fn())
}

fn role_values(roles: &Vec<Role>) -> (r: Vec<String>)
    ensures
        views(r@) == concat_map(roles@, role_value_fn()),
{
    let mut out: Vec<String> = Vec::new();
    let mut i: usize = 0;
    assert(views(out@) =~= concat_map(roles@.take(0), role_value_fn()));
    while i < roles.len()
        invariant
            i <= roles.len(),
            views(out@) == concat_map(roles@.take(i as int), role_value_fn()),
        decreases roles.len() - i,
    {
        if let Some(rv) = &roles[i].value {
            push_msg(&mut out, rv.clone());
        } else {
            assert(views(out@) + seq![] =~= views(out@));
        }
        proof {
            lemma_concat_map_step(roles@, role_value_fn(), i as int);
        }
        i = i + 1;
    }
    proof {
        lemma_take_all(roles@);
    }
    out
}

/// The role values of an AdaptationSet: a `<Role value="...">` element can stand directly
/// within the AdaptationSet element, or within one of its ContentComponent elements.
pub fn adaptation_roles(a: &AdaptationSet) -> (r: Vec<String>)
    ensures
        views(r@) == spec_adaptation_roles(*a),
{
    let mut roles = role_values(&a.Role);
    let ccs = &a.ContentComponent;
    let ghost head = views(roles@);
    let mut i: usize = 0;
    assert(views(roles@) =~= head + concat_map(ccs@.take(0), component_roles_fn()));
    while i < ccs.len()
        invariant
            i <= ccs.len(),
            views(roles@) == head + concat_map(ccs@.take(i as int), component_roles_fn()),
        decreases ccs.len() - i,
    {
        append_msgs(&mut roles, role_values(&ccs[i].Role));
        proof {
            lemma_concat_map_step(ccs@, component_roles_fn(), i as int);
        }
        i = i + 1;
    }
    proof {
        lemma_take_all(ccs@);
    }
    roles
}

/// The position of the first occurrence of `needle` in `hay`, if any.
pub open spec fn position_of(hay: Seq<Seq<char>>, needle: Seq<char>) -> Option<int>
    decreases hay.len(),
{
    if hay.len() == 0 {
        None
    } else {
        match position_of(hay.drop_last(), needle) {
            Some(i) => Some(i),
            None => if hay.last() == needle {
                Some(hay.len() - 1)
            } else {
                None
            },
        }
    }
}

/// The position of the first occurrence of `needle` in the preference list.
fn find_position(hay: &[String], needle: &String) -> (r: Option<usize>)
    ensures
        match r {
            Some(i) => position_of(views(hay@), needle@) == Some(i as int),
            None => position_of(views(hay@), needle@) is None,
        },
{
    let ghost hv = views(hay@);
    let mut i: usize = 0;
    assert(hv.take(0) =~= seq![]);
    while i < hay.len()
        invariant
            i <= hay.len(),
            hv == views(hay@),
            position_of(hv.take(i as int), needle@) is None,
        decreases hay.len() - i,
    {
        assert(hv.take(i + 1).drop_last() =~= hv.take(i as int));
        assert(hv.take(i + 1).last() == hay@[i as int]@);
        if str_eq(hay[i].as_str(), needle.as_str()) {
            proof {
                lemma_position_prefix(hv, needle@, i + 1);
            }
            return Some(i);
        }
        i = i + 1;
    }
    assert(hv.take(hay.len() as int) =~= hv);
    None
}

/// The first occurrence found in a prefix is the first occurrence in the whole sequence.
proof fn lemma_position_prefix(hay: Seq<Seq<char>>, needle: Seq<char>, n: int)
    requires
        0 <= n <= hay.len(),
        position_of(hay.take(n), needle) is Some,
    ensures
        position_of(hay, needle) == position_of(hay.take(n), needle),
    decreases hay.len() - n,
{
    if n < hay.len() {
        assert(hay.take(n + 1).drop_last() =~= hay.take(n));
        lemma_position_prefix(hay, needle, n + 1);
    } else {
        assert(hay.take(n) =~= hay);
    }
}

/// The rank of a role from its position among the preferred roles: the position, capped at 255,
/// or 255 when the role is not among them.
pub open spec fn spec_role_rank(found: Option<int>) -> u8 {
    match found {
        Some(i) => if 0 <= i <= 255 {
            i as u8
        } else {
            255
        },
        None => 255,
    }
}

/// The rank of a role, from its position among the preferred roles.
pub fn role_rank(found: Option<usize>) -> (r: u8)
    ensures
        r == spec_role_rank(match found {
            Some(i) => Some(i as int),
            None => None,
        }),
{
    match found {
        Some(i) => if i <= 255 {
            i as u8
        } else {
            255
        },
        None => 255,
    }
}

/// The smallest rank among the roles, 255 when there are none.
pub open spec fn min_role_rank(roles: Seq<Seq<char>>, prefs: Seq<Seq<char>>) -> u8
    decreases roles.len(),
{
    if roles.len() == 0 {
        255
    } else {
        let m = min_role_rank(roles.drop_last(), prefs);
        let x = spec_role_rank(position_of(prefs, roles.last()));
        if x < m {
            x
        } else {
            m
        }
    }
}

/// The role distance of an AdaptationSet: the best rank of its roles in the preference list.
pub open spec fn spec_role_distance(a: AdaptationSet, prefs: Seq<Seq<char>>) -> u8 {
    min_role_rank(spec_adaptation_roles(a), prefs)
}

/// What the first occurrence is: where a value occurs in the list, its first occurrence is at or
/// before that position, and holds the value.
proof fn lemma_position_of(hay: Seq<Seq<char>>, needle: Seq<char>)
    ensures
        position_of(hay, needle) matches Some(p) ==> 0 <= p < hay.len() && hay[p] == needle,
        forall|k: int| 0 <= k < hay.len() && hay[k] == needle ==> (position_of(hay, needle) matches Some(p) && p <= k),
    decreases hay.len(),
{
    if hay.len() > 0 {
        lemma_position_of(hay.drop_last(), needle);
        assert forall|k: int| 0 <= k < hay.len() && hay[k] == needle implies (position_of(hay, needle) matches Some(
            p,
        ) && p <= k) by {
            if k < hay.len() - 1 {
                assert(hay.drop_last()[k] == hay[k]);
            }
        }
    }
}

/// The smallest rank of a list of roles: no role found at a position below 255 is ranked worse,
/// and the rank is 255 or the position of one of the roles.
proof fn lemma_min_role_rank(roles: Seq<Seq<char>>, prefs: Seq<Seq<char>>)
    ensures
        forall|i: int, k: int|
            0 <= i < roles.len() && 0 <= k < prefs.len() && k < 255 && prefs[k] == roles[i] ==> min_role_rank(
                roles,
                prefs,
            ) <= k,
        min_role_rank(roles, prefs) == 255 || exists|i: int|
            0 <= i < roles.len() && min_role_rank(roles, prefs) < prefs.len() && prefs[min_role_rank(roles, prefs) as int]
                == roles[i],
    decreases roles.len(),
{
    if roles.len() > 0 {
        let rest = roles.drop_last();
        lemma_min_role_rank(rest, prefs);
        lemma_position_of(prefs, roles.last());
        let m = min_role_rank(rest, prefs);
        let x = spec_role_rank(position_of(prefs, roles.last()));
        assert forall|i: int, k: int|
            0 <= i < roles.len() && 0 <= k < prefs.len() && k < 255 && prefs[k] == roles[i] implies min_role_rank(
            roles,
            prefs,
        ) <= k by {
            if i < roles.len() - 1 {
                assert(rest[i] == roles[i]);
            }
        }
        if min_role_rank(roles, prefs) != 255 {
            if x < m {
                assert(0 <= roles.len() - 1 < roles.len());
            } else {
                let i = choose|i: int| 0 <= i < rest.len() && m < prefs.len() && prefs[m as int] == rest[i];
                assert(rest[i] == roles[i]);
            }
        }
    }
}

/// The role distance of an AdaptationSet is the best position, in the preference list, of any
/// of its roles (its own Role elements and those of its ContentComponents): a role found at
/// position `k` below 255 makes the distance at most `k`, and the distance is 255 or the position
/// of one of its roles.
pub proof fn lemma_role_distance_is_best_role(a: AdaptationSet, prefs: Seq<Seq<char>>)
    ensures
        forall|i: int, k: int|
            0 <= i < spec_adaptation_roles(a).len() && 0 <= k < prefs.len() && k < 255 && prefs[k]
                == spec_adaptation_roles(a)[i] ==> spec_role_distance(a, prefs) <= k,
        spec_role_distance(a, prefs) == 255 || exists|i: int|
            0 <= i < spec_adaptation_roles(a).len() && spec_role_distance(a, prefs) < prefs.len() && prefs[spec_role_distance(
                a,
                prefs,
            ) as int] == spec_adaptation_roles(a)[i],
{
    lemma_min_role_rank(spec_adaptation_roles(a), prefs);
}

/// The Role element has the value `x`.
pub open spec fn role_has_value(r: Role, x: Seq<char>) -> bool {
    r.value matches Some(v) && v@ == x
}

/// The AdaptationSet has a Role element with the value `x`, among its own or among those of its
/// ContentComponents.
pub open spec fn has_role_value(a: AdaptationSet, x: Seq<char>) -> bool {
    ||| exists|i: int| 0 <= i < a.Role.len() && role_has_value(#[trigger] a.Role@[i], x)
    ||| exists|c: int, i: int|
        0 <= c < a.ContentComponent.len() && 0 <= i < a.ContentComponent@[c].Role.len() && role_has_value(
            #[trigger] a.ContentComponent@[c].Role@[i],
            x,
        )
}

proof fn lemma_role_values_members(roles: Seq<Role>, x: Seq<char>)
    ensures
        concat_map(roles, role_value_fn()).contains(x) <==> exists|i: int|
            0 <= i < roles.len() && role_has_value(#[trigger] roles[i], x),
{
    lemma_concat_map_member(roles, role_value_fn(), x);
    if concat_map(roles, role_value_fn()).contains(x) {
        let i = choose|i: int| 0 <= i < roles.len() && (#[trigger] role_value_fn()(roles[i])).contains(x);
        assert(role_has_value(roles[i], x));
    }
    if exists|i: int| 0 <= i < roles.len() && role_has_value(#[trigger] roles[i], x) {
        let i = choose|i: int| 0 <= i < roles.len() && role_has_value(#[trigger] roles[i], x);
        assert(role_value_fn()(roles[i])[0] == x);
        lemma_concat_map_contains(roles, role_value_fn(), i, x);
    }
}

/// The role values of an AdaptationSet are the values of its Role elements and of the Role
/// elements of its ContentComponents, and only those.
pub proof fn lemma_adaptation_roles_members(a: AdaptationSet, x: Seq<char>)
    ensures
        spec_adaptation_roles(a).contains(x) <==> has_role_value(a, x),
{
    let own = concat_map(a.Role@, role_value_fn());
    let ccs = a.ContentComponent@;
    let comp = concat_map(ccs, component_roles_fn());
    lemma_role_values_members(a.Role@, x);
    lemma_add_contains(own, comp, x);
    lemma_concat_map_member(ccs, component_roles_fn(), x);
    if comp.contains(x) {
        let c = choose|c: int| 0 <= c < ccs.len() && (#[trigger] component_roles_fn()(ccs[c])).contains(x);
        lemma_role_values_members(ccs[c].Role@, x);
        let i = choose|i: int| 0 <= i < ccs[c].Role.len() && role_has_value(#[trigger] ccs[c].Role@[i], x);
        assert(role_has_value(a.ContentComponent@[c].Role@[i], x));
    }
    if has_role_value(a, x) {
        if exists|i: int| 0 <= i < a.Role.len() && role_has_value(#[trigger] a.Role@[i], x) {
            let i = choose|i: int| 0 <= i < a.Role.len() && role_has_value(#[trigger] a.Role@[i], x);
            assert(own.contains(x));
            let j = choose|j: int| 0 <= j < own.len() && own[j] == x;
            assert((own + comp)[j] == x);
        } else {
            let (c, i) = choose|c: int, i: int|
                0 <= c < a.ContentComponent.len() && 0 <= i < a.ContentComponent@[c].Role.len() && role_has_value(
                    #[trigger] a.ContentComponent@[c].Role@[i],
                    x,
                );
            lemma_role_values_members(ccs[c].Role@, x);
            assert(role_has_value(ccs[c].Role@[i], x));
            lemma_concat_map_contains(ccs, component_roles_fn(), c, x);
            let j = choose|j: int| 0 <= j < comp.len() && comp[j] == x;
            assert((own + comp)[own.len() + j] == x);
        }
    }
}

/// A Role value of the AdaptationSet (its own or one of its ContentComponents') found at position
/// `k` below 255 of the preference list makes the role distance at most `k`.
pub proof fn lemma_role_distance_at_most_position(a: AdaptationSet, prefs: Seq<Seq<char>>, k: int)
    requires
        0 <= k < prefs.len(),
        k < 255,
        has_role_value(a, prefs[k]),
    ensures
        spec_role_distance(a, prefs) <= k,
{
    lemma_adaptation_roles_members(a, prefs[k]);
    let roles = spec_adaptation_roles(a);
    let i = choose|i: int| 0 <= i < roles.len() && roles[i] == prefs[k];
    lemma_role_distance_is_best_role(a, prefs);
}

/// The distance between the roles of the AdaptationSet and the preferred roles; the best
/// possible score is zero, and 255 means that no role of the AdaptationSet was found.
pub fn adaptation_role_distance(a: &AdaptationSet, role_preference: &[String]) -> (r: u8)
    ensures
        r == spec_role_distance(*a, views(role_preference@)),
{
    let roles = adaptation_roles(a);
    let ghost rv = views(roles@);
    let ghost prefs = views(role_preference@);
    let mut best: u8 = 255;
    let mut i: usize = 0;
    assert(rv.take(0) =~= seq![]);
    while i < roles.len()
        invariant
            i <= roles.len(),
            rv == views(roles@),
            prefs == views(role_preference@),
            best == min_role_rank(rv.take(i as int), prefs),
        decreases roles.len() - i,
    {
        let x = role_rank(find_position(role_preference, &roles[i]));
        proof {
            assert(rv.take(i + 1).drop_last() =~= rv.take(i as int));
        }
        if x < best {
            best = x;
        }
        i = i + 1;
    }
    assert(rv.take(roles.len() as int) =~= rv);
    best
}

// ---------------------------------------------------------------------------------------------
// Choice of AdaptationSets

/// The smallest value of the sequence, 0 for an empty one.
pub open spec fn min_u8(s: Seq<u8>) -> u8
    decreases s.len(),
{
    if s.len() == 0 {
        0
    } else if s.len() == 1 {
        s[0]
    } else {
        let m = min_u8(s.drop_last());
        if s.last() < m {
            s.last()
        } else {
            m
        }
    }
}

/// The smallest value of a vector of distances (0 when it is empty).
fn min_of(d: &Vec<u8>) -> (m: u8)
    ensures
        m == min_u8(d@),
{
    if d.len() == 0 {
        return 0;
    }
    let mut m = d[0];
    let mut i: usize = 1;
    assert(d@.take(1).drop_last() =~= seq![]);
    while i < d.len()
        invariant
            1 <= i <= d.len(),
            m == min_u8(d@.take(i as int)),
        decreases d.len() - i,
    {
        assert(d@.take(i + 1).drop_last() =~= d@.take(i as int));
        if d[i] < m {
            m = d[i];
        }
        i = i + 1;
    }
    assert(d@.take(d.len() as int) =~= d@);
    m
}

pub open spec fn lang_distances(adaps: Seq<&AdaptationSet>, pref: Seq<char>) -> Seq<u8> {
    adaps.map_values(|a: &AdaptationSet| spec_lang_distance(opt_view(a.lang), pref))
}

pub open spec fn role_distances(adaps: Seq<&AdaptationSet>, prefs: Seq<Seq<char>>) -> Seq<u8> {
    adaps.map_values(|a: &AdaptationSet| spec_role_distance(*a, prefs))
}

/// The AdaptationSets with the smallest language distance, in their order.
pub open spec fn closest_language(adaps: Seq<&AdaptationSet>, pref: Seq<char>) -> Seq<&AdaptationSet> {
    let m = min_u8(lang_distances(adaps, pref));
    adaps.filter(|a: &AdaptationSet| spec_lang_distance(opt_view(a.lang), pref) == m)
}

/// The AdaptationSets with the smallest role distance, in their order.
pub open spec fn closest_role(adaps: Seq<&AdaptationSet>, prefs: Seq<Seq<char>>) -> Seq<&AdaptationSet> {
    let m = min_u8(role_distances(adaps, prefs));
    adaps.filter(|a: &AdaptationSet| spec_role_distance(*a, prefs) == m)
}

/// The AdaptationSets chosen among `adaps`: with a language preference, those closest to the
/// preferred language; then, among them, those closest to the preferred roles.
pub open spec fn spec_select_adaptations(
    adaps: Seq<&AdaptationSet>,
    lang: Option<Seq<char>>,
    prefs: Seq<Seq<char>>,
) -> Seq<&AdaptationSet> {
    let preferred = match lang {
        Some(l) => closest_language(adaps, l),
        None => adaps,
    };
    closest_role(preferred, prefs)
}

/// The elements of `adaps` whose distance (given in `d`, one per element) equals `m`.
fn keep_at_distance<'a>(adaps: &Vec<&'a AdaptationSet>, d: &Vec<u8>, m: u8, Ghost(pred): Ghost<
    spec_fn(&AdaptationSet) -> bool,
>) -> (r: Vec<&'a AdaptationSet>)
    requires
        d.len() == adaps.len(),
        forall|i: int| 0 <= i < adaps.len() ==> #[trigger] pred(adaps@[i]) == (d@[i] == m),
    ensures
        r@ == adaps@.filter(pred),
{
    let mut out: Vec<&'a AdaptationSet> = Vec::new();
    let mut i: usize = 0;
    proof {
        reveal(Seq::filter);
    }
    assert(adaps@.take(0).filter(pred) =~= seq![]);
    while i < adaps.len()
        invariant
            i <= adaps.len(),
            d.len() == adaps.len(),
            forall|i: int| 0 <= i < adaps.len() ==> #[trigger] pred(adaps@[i]) == (d@[i] == m),
            out@ == adaps@.take(i as int).filter(pred),
        decreases adaps.len() - i,
    {
        proof {
            reveal(Seq::filter);
            assert(adaps@.take(i + 1).drop_last() =~= adaps@.take(i as int));
            assert(pred(adaps@[i as int]) == (d@[i as int] == m));
        }
        if d[i] == m {
            out.push(adaps[i]);
        }
        i = i + 1;
    }
    assert(adaps@.take(adaps.len() as int) =~= adaps@);
    out
}

/// Selects the AdaptationSets that correspond to the language preference, and among them those
/// with the best role according to the role preference. Without a language preference all
/// AdaptationSets are candidates; when no candidate has a preferred role, all candidates are
/// returned.
pub fn select_preferred_adaptations<'a>(
    adaptations: Vec<&'a AdaptationSet>,
    language_preference: &Option<String>,
    role_preference: &[String],
) -> (r: Vec<&'a AdaptationSet>)
    requires
        match language_preference {
            Some(l) => forall|i: int|
                0 <= i < adaptations.len() ==> lang_distance_defined(
                    (#[trigger] adaptations@[i]).lang,
                    l@,
                ),
            None => true,
        },
    ensures
        r@ == spec_select_adaptations(
            adaptations@,
            opt_view(*language_preference),
            views(role_preference@),
        ),
{
    let preferred: Vec<&'a AdaptationSet>;
    if let Some(lang) = language_preference {
        let l = lang.as_str();
        let mut distance: Vec<u8> = Vec::new();
        let mut i: usize = 0;
        while i < adaptations.len()
            invariant
                i <= adaptations.len(),
                l@ == lang@,
                forall|i: int|
                    0 <= i < adaptations.len() ==> lang_distance_defined(
                        (#[trigger] adaptations@[i]).lang,
                        l@,
                    ),
                distance@ == lang_distances(adaptations@, l@).take(i as int),
            decreases adaptations.len() - i,
        {
            let di = adaptation_lang_distance(adaptations[i], l);
            distance.push(di);
            assert(distance@ =~= lang_distances(adaptations@, l@).take(i + 1));
            i = i + 1;
        }
        assert(distance@ =~= lang_distances(adaptations@, l@));
        let min_distance = min_of(&distance);
        let ghost pred = |a: &AdaptationSet| spec_lang_distance(opt_view(a.lang), l@) == min_distance;
        preferred = keep_at_distance(&adaptations, &distance, min_distance, Ghost(pred));
        assert(preferred@ =~= closest_language(adaptations@, l@));
    } else {
        preferred = adaptations;
    }
    let ghost prefs = views(role_preference@);
    let mut role_distance: Vec<u8> = Vec::new();
    let mut i: usize = 0;
    while i < preferred.len()
        invariant
            i <= preferred.len(),
            prefs == views(role_preference@),
            role_distance@ == role_distances(preferred@, prefs).take(i as int),
        decreases preferred.len() - i,
    {
        let di = adaptation_role_distance(preferred[i], role_preference);
        role_distance.push(di);
        assert(role_distance@ =~= role_distances(preferred@, prefs).take(i + 1));
        i = i + 1;
    }
    assert(role_distance@ =~= role_distances(preferred@, prefs));
    let role_distance_min = min_of(&role_distance);
    let ghost pred = |a: &AdaptationSet| spec_role_distance(*a, prefs) == role_distance_min;
    let best = keep_at_distance(&preferred, &role_distance, role_distance_min, Ghost(pred));
    assert(best@ =~= closest_role(preferred@, prefs));
    best
}

/// The AdaptationSets selected by `select_preferred_adaptations` when every language distance
/// is defined, none otherwise.
pub fn checked_select_preferred_adaptations<'a>(
    adaptations: Vec<&'a AdaptationSet>,
    language_preference: &Option<String>,
    role_preference: &[String],
) -> (r: Option<Vec<&'a AdaptationSet>>)
    ensures
        r is None <==> (language_preference matches Some(l) && !(forall|i: int|
            0 <= i < adaptations.len() ==> lang_distance_defined((#[trigger] adaptations@[i]).lang, l@))),
        r matches Some(v) ==> v@ == spec_select_adaptations(
            adaptations@,
            opt_view(*language_preference),
            views(role_preference@),
        ),
{
    if let Some(l) = language_preference {
        if !lang_distances_defined(&adaptations, l.as_str()) {
            return None;
        }
    }
    Some(select_preferred_adaptations(adaptations, language_preference, role_preference))
}

/// The smallest of a nonempty sequence of values is one of them, and no value is smaller.
pub proof fn lemma_min_u8(s: Seq<u8>)
    requires
        s.len() > 0,
    ensures
        s.contains(min_u8(s)),
        forall|i: int| 0 <= i < s.len() ==> min_u8(s) <= #[trigger] s[i],
    decreases s.len(),
{
    if s.len() == 1 {
        assert(s[0] == min_u8(s));
    } else {
        let t = s.drop_last();
        lemma_min_u8(t);
        let j = choose|j: int| 0 <= j < t.len() && t[j] == min_u8(t);
        assert(s[j] == t[j]);
        assert(s[s.len() - 1] == s.last());
        assert forall|i: int| 0 <= i < s.len() implies min_u8(s) <= #[trigger] s[i] by {
            if i < s.len() - 1 {
                assert(s[i] == t[i]);
            }
        }
    }
}

/// When every value of a nonempty sequence is `m`, the smallest is `m`.
proof fn lemma_min_u8_constant(s: Seq<u8>, m: u8)
    requires
        s.len() > 0,
        forall|i: int| 0 <= i < s.len() ==> s[i] == m,
    ensures
        min_u8(s) == m,
{
    lemma_min_u8(s);
}

/// Filtering by a predicate that holds of every element keeps the sequence.
proof fn lemma_filter_all<A>(s: Seq<A>, p: spec_fn(A) -> bool)
    requires
        forall|i: int| 0 <= i < s.len() ==> p(s[i]),
    ensures
        s.filter(p) == s,
    decreases s.len(),
{
    reveal(Seq::filter);
    if s.len() > 0 {
        let t = s.drop_last();
        assert forall|i: int| 0 <= i < t.len() implies p(t[i]) by {
            assert(t[i] == s[i]);
        }
        lemma_filter_all(t, p);
        assert(p(s[s.len() - 1]));
        assert(t.push(s.last()) =~= s);
    } else {
        assert(s.filter(p) =~= s);
    }
}

/// When none of the candidate AdaptationSets has a role that the role preference ranks (there
/// are no role annotations, or the roles don't match anything in the preference ordering), all
/// of them receive the maximum distance and all of them are returned.
pub proof fn lemma_unranked_roles_keep_all(adaps: Seq<&AdaptationSet>, prefs: Seq<Seq<char>>)
    requires
        forall|i: int| 0 <= i < adaps.len() ==> spec_role_distance(*#[trigger] adaps[i], prefs) == 255,
    ensures
        closest_role(adaps, prefs) == adaps,
        spec_select_adaptations(adaps, None, prefs) == adaps,
{
    let d = role_distances(adaps, prefs);
    if adaps.len() > 0 {
        assert forall|i: int| 0 <= i < d.len() implies d[i] == 255u8 by {
            assert(spec_role_distance(*adaps[i], prefs) == 255);
        }
        lemma_min_u8_constant(d, 255);
    }
    let m = min_u8(d);
    let p = |a: &AdaptationSet| spec_role_distance(*a, prefs) == m;
    assert forall|i: int| 0 <= i < adaps.len() implies p(adaps[i]) by {
        assert(spec_role_distance(*adaps[i], prefs) == 255);
    }
    lemma_filter_all(adaps, p);
}

/// Filtering keeps the elements for which the predicate holds.
proof fn lemma_filter_keeps<A>(s: Seq<A>, p: spec_fn(A) -> bool, x: A)
    requires
        s.contains(x),
        p(x),
    ensures
        s.filter(p).contains(x),
{
    broadcast use vstd::seq_lib::group_filter_ensures;
}

/// The choice of AdaptationSets never rejects all candidates: from a nonempty list it returns a
/// nonempty list, drawn from the candidates.
pub proof fn lemma_selection_nonempty(
    adaps: Seq<&AdaptationSet>,
    lang: Option<Seq<char>>,
    prefs: Seq<Seq<char>>,
)
    requires
        adaps.len() > 0,
    ensures
        spec_select_adaptations(adaps, lang, prefs).len() > 0,
{
    let preferred = match lang {
        Some(l) => {
            let d = lang_distances(adaps, l);
            lemma_min_u8(d);
            let j = choose|j: int| 0 <= j < d.len() && d[j] == min_u8(d);
            let p = |a: &AdaptationSet| spec_lang_distance(opt_view(a.lang), l) == min_u8(d);
            assert(p(adaps[j]));
            assert(adaps.contains(adaps[j]));
            lemma_filter_keeps(adaps, p, adaps[j]);
            closest_language(adaps, l)
        },
        None => adaps,
    };
    assert(preferred.len() > 0);
    let d = role_distances(preferred, prefs);
    lemma_min_u8(d);
    let j = choose|j: int| 0 <= j < d.len() && d[j] == min_u8(d);
    let p = |a: &AdaptationSet| spec_role_distance(*a, prefs) == min_u8(d);
    assert(p(preferred[j]));
    assert(preferred.contains(preferred[j]));
    lemma_filter_keeps(preferred, p, preferred[j]);
}

/// The AdaptationSet's `@lang` is the preferred language.
pub open spec fn has_lang(a: AdaptationSet, pref: Seq<char>) -> bool {
    a.lang matches Some(x) && x@ == pref
}

/// The AdaptationSet has a `@lang` whose UTF-8 encoding starts with the same two bytes as that of
/// the preferred language.
pub open spec fn lang_shares_two_bytes(a: AdaptationSet, pref: Seq<char>) -> bool {
    a.lang matches Some(x) && encode_utf8(x@).subrange(0, 2) == encode_utf8(pref).subrange(0, 2)
}

/// Every AdaptationSet that the language step keeps has a language distance equal to the
/// smallest one, and every selected AdaptationSet is kept by the language step.
proof fn lemma_selected_at_min_language(adaps: Seq<&AdaptationSet>, l: Seq<char>, prefs: Seq<Seq<char>>, j: int)
    requires
        0 <= j < spec_select_adaptations(adaps, Some(l), prefs).len(),
    ensures
        spec_lang_distance(opt_view(spec_select_adaptations(adaps, Some(l), prefs)[j].lang), l) == min_u8(
            lang_distances(adaps, l),
        ),
{
    let m = min_u8(lang_distances(adaps, l));
    let pl = |a: &AdaptationSet| spec_lang_distance(opt_view(a.lang), l) == m;
    let preferred = closest_language(adaps, l);
    let pr = |a: &AdaptationSet| spec_role_distance(*a, prefs) == min_u8(role_distances(preferred, prefs));
    let sel = spec_select_adaptations(adaps, Some(l), prefs);
    assert(sel == preferred.filter(pr));
    let y = sel[j];
    assert(preferred.filter(pr).contains(y));
    preferred.lemma_filter_contains_rev(pr, y);
    let k = choose|k: int| 0 <= k < preferred.len() && preferred[k] == y;
    adaps.lemma_filter_pred(pl, k);
}

/// The language preference is honoured: when some candidate's `@lang` is the preferred language,
/// every selected AdaptationSet has that `@lang`; else, when some candidate's `@lang` shares the
/// first two bytes with it, every selected one does.
pub proof fn lemma_language_preference_honoured(
    adaps: Seq<&AdaptationSet>,
    l: Seq<char>,
    prefs: Seq<Seq<char>>,
)
    ensures
        (exists|i: int| 0 <= i < adaps.len() && has_lang(*#[trigger] adaps[i], l)) ==> forall|j: int|
            0 <= j < spec_select_adaptations(adaps, Some(l), prefs).len() ==> has_lang(
                *#[trigger] spec_select_adaptations(adaps, Some(l), prefs)[j],
                l,
            ),
        (forall|i: int| 0 <= i < adaps.len() ==> !has_lang(*#[trigger] adaps[i], l)) && (exists|i: int|
            0 <= i < adaps.len() && lang_shares_two_bytes(*#[trigger] adaps[i], l)) ==> forall|j: int|
            0 <= j < spec_select_adaptations(adaps, Some(l), prefs).len() ==> lang_shares_two_bytes(
                *#[trigger] spec_select_adaptations(adaps, Some(l), prefs)[j],
                l,
            ),
{
    let d = lang_distances(adaps, l);
    let m = min_u8(d);
    let sel = spec_select_adaptations(adaps, Some(l), prefs);
    if adaps.len() > 0 {
        lemma_min_u8(d);
    }
    if exists|i: int| 0 <= i < adaps.len() && has_lang(*#[trigger] adaps[i], l) {
        let i = choose|i: int| 0 <= i < adaps.len() && has_lang(*#[trigger] adaps[i], l);
        assert(d[i] == 0);
        assert(m == 0);
        assert forall|j: int| 0 <= j < sel.len() implies has_lang(*#[trigger] sel[j], l) by {
            lemma_selected_at_min_language(adaps, l, prefs, j);
        }
    }
    if (forall|i: int| 0 <= i < adaps.len() ==> !has_lang(*#[trigger] adaps[i], l)) && (exists|i: int|
        0 <= i < adaps.len() && lang_shares_two_bytes(*#[trigger] adaps[i], l)) {
        let i = choose|i: int| 0 <= i < adaps.len() && lang_shares_two_bytes(*#[trigger] adaps[i], l);
        assert(!has_lang(*adaps[i], l));
        assert(d[i] == 5);
        assert forall|k: int| 0 <= k < d.len() implies d[k] != 0 by {
            assert(!has_lang(*adaps[k], l));
        }
        assert(m == 5);
        assert forall|j: int| 0 <= j < sel.len() implies lang_shares_two_bytes(*#[trigger] sel[j], l) by {
            lemma_selected_at_min_language(adaps, l, prefs, j);
        }
    }
}

// ---------------------------------------------------------------------------------------------
// Choice of a Representation

/// How a Representation is picked from its ranking key.
#[derive(Debug, PartialEq, Eq, Clone, Copy, Structural)]
pub enum Pick {
    /// The last one with the largest key.
    LastMax,
    /// The first one with the smallest key.
    FirstMin,
    /// The first one whose key is the median: the key at position `n / 2` of the `n` keys
    /// sorted in ascending order.
    FirstMedian,
}

/// Every Representation has a `@qualityRanking` attribute.
pub open spec fn all_quality_ranked(rs: Seq<&Representation>) -> bool {
    forall|i: int| 0 <= i < rs.len() ==> (#[trigger] rs[i]).qualityRanking is Some
}

/// The key by which a Representation is ranked: its `@qualityRanking` when all Representations
/// have one (lower values represent higher quality), else its `@bandwidth`; an absent value
/// counts as the default that each preference gives it.
pub open spec fn rep_key(r: Representation, ranked: bool, q: QualityPreference) -> u64 {
    if ranked {
        match q {
            QualityPreference::Highest => r.qualityRanking.unwrap_or(0) as u64,
            _ => r.qualityRanking.unwrap_or(255) as u64,
        }
    } else {
        match q {
            QualityPreference::Lowest => r.bandwidth.unwrap_or(1_000_000_000),
            QualityPreference::Highest => r.bandwidth.unwrap_or(0),
            QualityPreference::Intermediate => r.bandwidth.unwrap_or(100_000_000),
        }
    }
}

pub open spec fn rep_keys(rs: Seq<&Representation>, ranked: bool, q: QualityPreference) -> Seq<u64> {
    rs.map_values(|r: &Representation| rep_key(*r, ranked, q))
}

/// With quality rankings, the lowest quality is the largest ranking and the highest quality the
/// smallest; with bandwidths, the lowest quality is the smallest bandwidth and the highest
/// quality the largest.
pub open spec fn pick_of(ranked: bool, q: QualityPreference) -> Pick {
    match q {
        QualityPreference::Intermediate => Pick::FirstMedian,
        QualityPreference::Lowest => if ranked {
            Pick::LastMax
        } else {
            Pick::FirstMin
        },
        QualityPreference::Highest => if ranked {
            Pick::FirstMin
        } else {
            Pick::LastMax
        },
    }
}

pub open spec fn u64_leq() -> spec_fn(u64, u64) -> bool {
    |a: u64, b: u64| a <= b
}

/// The median key: the one at position `n / 2` of the `n` keys sorted in ascending order.
pub open spec fn median_key(k: Seq<u64>) -> u64 {
    k.sort_by(u64_leq())[k.len() as int / 2]
}

pub open spec fn is_last_max(k: Seq<u64>, i: int) -> bool {
    &&& 0 <= i < k.len()
    &&& forall|j: int| 0 <= j < k.len() ==> k[j] <= k[i]
    &&& forall|j: int| i < j < k.len() ==> k[j] < k[i]
}

pub open spec fn is_first_min(k: Seq<u64>, i: int) -> bool {
    &&& 0 <= i < k.len()
    &&& forall|j: int| 0 <= j < k.len() ==> k[i] <= k[j]
    &&& forall|j: int| 0 <= j < i ==> k[i] < k[j]
}

pub open spec fn is_first_eq(k: Seq<u64>, i: int, v: u64) -> bool {
    &&& 0 <= i < k.len()
    &&& k[i] == v
    &&& forall|j: int| 0 <= j < i ==> k[j] != v
}

/// Index `i` is the one that the pick selects among the keys `k`.
pub open spec fn picked(k: Seq<u64>, p: Pick, i: int) -> bool {
    match p {
        Pick::LastMax => is_last_max(k, i),
        Pick::FirstMin => is_first_min(k, i),
        Pick::FirstMedian => is_first_eq(k, i, median_key(k)),
    }
}

fn index_last_max(k: &Vec<u64>) -> (i: usize)
    requires
        k.len() > 0,
    ensures
        is_last_max(k@, i as int),
{
    let mut best: usize = 0;
    let mut j: usize = 1;
    while j < k.len()
        invariant
            0 <= best < j <= k.len(),
            forall|m: int| 0 <= m < j ==> k@[m] <= k@[best as int],
            forall|m: int| best < m < j ==> k@[m] < k@[best as int],
        decreases k.len() - j,
    {
        if k[j] >= k[best] {
            best = j;
        }
        j = j + 1;
    }
    best
}

fn index_first_min(k: &Vec<u64>) -> (i: usize)
    requires
        k.len() > 0,
    ensures
        is_first_min(k@, i as int),
{
    let mut best: usize = 0;
    let mut j: usize = 1;
    while j < k.len()
        invariant
            0 <= best < j <= k.len(),
            forall|m: int| 0 <= m < j ==> k@[best as int] <= k@[m],
            forall|m: int| 0 <= m < best ==> k@[best as int] < k@[m],
        decreases k.len() - j,
    {
        if k[j] < k[best] {
            best = j;
        }
        j = j + 1;
    }
    best
}

/// Calls `<[u64]>::sort_unstable`, which its documentation says sorts the slice in ascending
/// order (without preserving the order of equal elements, which for integers cannot be told
/// apart): the result holds the same elements, in ascending order.
#[verifier::external_body]
fn sort_keys(v: &mut Vec<u64>)
    ensures
        final(v)@.to_multiset() == old(v)@.to_multiset(),
        sorted_by(final(v)@, u64_leq()),
{
    v.sort_unstable();
}

fn index_first_median(k: &Vec<u64>) -> (i: usize)
    requires
        k.len() > 0,
    ensures
        is_first_eq(k@, i as int, median_key(k@)),
{
    let mut sorted: Vec<u64> = Vec::new();
    let mut j: usize = 0;
    while j < k.len()
        invariant
            j <= k.len(),
            sorted@ == k@.take(j as int),
        decreases k.len() - j,
    {
        sorted.push(k[j]);
        assert(sorted@ =~= k@.take(j + 1));
        j = j + 1;
    }
    assert(sorted@ =~= k@);
    sort_keys(&mut sorted);
    proof {
        vstd::seq_lib::to_multiset_len(sorted@);
        vstd::seq_lib::to_multiset_len(k@);
        let leq = u64_leq();
        assert(total_ordering(leq));
        k@.lemma_sort_by_ensures(leq);
        vstd::seq_lib::lemma_sorted_unique(sorted@, k@.sort_by(leq), leq);
    }
    let want = sorted[k.len() / 2];
    proof {
        assert(sorted@[k.len() as int / 2] == want);
        assert(sorted@.contains(want));
        vstd::seq_lib::to_multiset_contains(sorted@, want);
        vstd::seq_lib::to_multiset_contains(k@, want);
        assert(k@.contains(want));
    }
    let mut i: usize = 0;
    while i < k.len()
        invariant
            i <= k.len(),
            k@.contains(want),
            want == median_key(k@),
            forall|m: int| 0 <= m < i ==> k@[m] != want,
        decreases k.len() - i,
    {
        if k[i] == want {
            return i;
        }
        i = i + 1;
    }
    assert(false);
    0
}

/// Whether every Representation has a `@qualityRanking`.
fn all_ranked(reps: &[&Representation]) -> (r: bool)
    ensures
        r == all_quality_ranked(reps@),
{
    let mut i: usize = 0;
    while i < reps.len()
        invariant
            i <= reps.len(),
            forall|m: int| 0 <= m < i ==> (#[trigger] reps@[m]).qualityRanking is Some,
        decreases reps.len() - i,
    {
        if reps[i].qualityRanking.is_none() {
            return false;
        }
        i = i + 1;
    }
    true
}

/// The ranking keys of the Representations.
fn keys_of(reps: &[&Representation], ranked: bool, q: QualityPreference) -> (k: Vec<u64>)
    ensures
        k@ == rep_keys(reps@, ranked, q),
{
    let mut k: Vec<u64> = Vec::new();
    let mut i: usize = 0;
    while i < reps.len()
        invariant
            i <= reps.len(),
            k@ == rep_keys(reps@, ranked, q).take(i as int),
        decreases reps.len() - i,
    {
        let r = reps[i];
        let key: u64 = if ranked {
            match q {
                QualityPreference::Highest => r.qualityRanking.unwrap_or(0) as u64,
                _ => r.qualityRanking.unwrap_or(255) as u64,
            }
        } else {
            match q {
                QualityPreference::Lowest => r.bandwidth.unwrap_or(1_000_000_000),
                QualityPreference::Highest => r.bandwidth.unwrap_or(0),
                QualityPreference::Intermediate => r.bandwidth.unwrap_or(100_000_000),
            }
        };
        k.push(key);
        assert(k@ =~= rep_keys(reps@, ranked, q).take(i + 1));
        i = i + 1;
    }
    assert(k@ =~= rep_keys(reps@, ranked, q));
    k
}

/// Selects the Representation to download following the quality preference. Representations
/// are ranked by `@qualityRanking` when all of them have one (lower values represent higher
/// quality), and otherwise by `@bandwidth` (lower values imply lower quality). `Lowest` and
/// `Highest` take the lowest and highest quality (the last of several with the largest key, the
/// first of several with the smallest); `Intermediate` takes the first whose key is the median.
/// There is no choice among no Representations.
pub fn select_preferred_representation<'a>(
    representations: &[&'a Representation],
    quality_preference: QualityPreference,
) -> (r: Option<&'a Representation>)
    ensures
        representations.len() == 0 ==> r is None,
        representations.len() > 0 ==> exists|i: int|
            0 <= i < representations.len() && r == Some(representations@[i]) && picked(
                rep_keys(representations@, all_quality_ranked(representations@), quality_preference),
                pick_of(all_quality_ranked(representations@), quality_preference),
                i,
            ),
{
    if representations.len() == 0 {
        return None;
    }
    let ranked = all_ranked(representations);
    let keys = keys_of(representations, ranked, quality_preference);
    let ghost p = pick_of(ranked, quality_preference);
    let i = match quality_preference {
        QualityPreference::Intermediate => index_first_median(&keys),
        QualityPreference::Lowest => if ranked {
            index_last_max(&keys)
        } else {
            index_first_min(&keys)
        },
        QualityPreference::Highest => if ranked {
            index_first_min(&keys)
        } else {
            index_last_max(&keys)
        },
    };
    assert(picked(keys@, p, i as int));
    let r = representations[i];
    assert(Some(r) == Some(representations@[i as int]));
    Some(r)
}

/// How the quality preference chooses a Representation: when some Representation has no
/// `@qualityRanking`, by bandwidth (with Highest one of the largest `@bandwidth`, an absent one
/// counting as 0; with Lowest one of the smallest, an absent one counting as 1 000 000 000);
/// when all have one, by ranking (with Highest one of the smallest, with Lowest one of the
/// largest, lower rankings being higher quality).
pub proof fn lemma_quality_choice(reps: Seq<&Representation>, q: QualityPreference, i: int)
    requires
        picked(rep_keys(reps, all_quality_ranked(reps), q), pick_of(all_quality_ranked(reps), q), i),
    ensures
        0 <= i < reps.len(),
        (exists|j: int| 0 <= j < reps.len() && (#[trigger] reps[j]).qualityRanking is None) && q is Highest
            ==> forall|j: int| 0 <= j < reps.len() ==> (#[trigger] reps[j]).bandwidth.unwrap_or(0) <= reps[i].bandwidth.unwrap_or(0),
        (exists|j: int| 0 <= j < reps.len() && (#[trigger] reps[j]).qualityRanking is None) && q is Lowest
            ==> forall|j: int| 0 <= j < reps.len() ==> reps[i].bandwidth.unwrap_or(1_000_000_000) <= (#[trigger] reps[j]).bandwidth.unwrap_or(
                1_000_000_000,
            ),
        (forall|j: int| 0 <= j < reps.len() ==> (#[trigger] reps[j]).qualityRanking is Some) && q is Highest
            ==> forall|j: int| 0 <= j < reps.len() ==> reps[i].qualityRanking->0 <= (#[trigger] reps[j]).qualityRanking->0,
        (forall|j: int| 0 <= j < reps.len() ==> (#[trigger] reps[j]).qualityRanking is Some) && q is Lowest
            ==> forall|j: int| 0 <= j < reps.len() ==> (#[trigger] reps[j]).qualityRanking->0 <= reps[i].qualityRanking->0,
{
    let ranked = all_quality_ranked(reps);
    let k = rep_keys(reps, ranked, q);
    assert(k.len() == reps.len());
    assert forall|j: int| 0 <= j < reps.len() implies k[j] == rep_key(*reps[j], ranked, q) by {}
    if exists|j: int| 0 <= j < reps.len() && (#[trigger] reps[j]).qualityRanking is None {
        let j0 = choose|j: int| 0 <= j < reps.len() && (#[trigger] reps[j]).qualityRanking is None;
        assert(!ranked) by {
            assert(reps[j0].qualityRanking is None);
        }
        if q is Highest {
            assert(pick_of(ranked, q) == Pick::LastMax);
            assert(is_last_max(k, i));
            assert forall|j: int| 0 <= j < reps.len() implies (#[trigger] reps[j]).bandwidth.unwrap_or(0)
                <= reps[i].bandwidth.unwrap_or(0) by {
                assert(k[j] <= k[i]);
                assert(k[j] == reps[j].bandwidth.unwrap_or(0));
                assert(k[i] == reps[i].bandwidth.unwrap_or(0));
            }
        }
        if q is Lowest {
            assert(pick_of(ranked, q) == Pick::FirstMin);
            assert(is_first_min(k, i));
            assert forall|j: int| 0 <= j < reps.len() implies reps[i].bandwidth.unwrap_or(1_000_000_000)
                <= (#[trigger] reps[j]).bandwidth.unwrap_or(1_000_000_000) by {
                assert(k[i] <= k[j]);
                assert(k[j] == reps[j].bandwidth.unwrap_or(1_000_000_000));
                assert(k[i] == reps[i].bandwidth.unwrap_or(1_000_000_000));
            }
        }
    }
    if forall|j: int| 0 <= j < reps.len() ==> (#[trigger] reps[j]).qualityRanking is Some {
        assert(ranked);
        if q is Highest {
            assert(pick_of(ranked, q) == Pick::FirstMin);
            assert(is_first_min(k, i));
            assert forall|j: int| 0 <= j < reps.len() implies reps[i].qualityRanking->0
                <= (#[trigger] reps[j]).qualityRanking->0 by {
                assert(k[i] <= k[j]);
                assert(reps[j].qualityRanking is Some);
                assert(reps[i].qualityRanking is Some);
            }
        }
        if q is Lowest {
            assert(pick_of(ranked, q) == Pick::LastMax);
            assert(is_last_max(k, i));
            assert forall|j: int| 0 <= j < reps.len() implies (#[trigger] reps[j]).qualityRanking->0
                <= reps[i].qualityRanking->0 by {
                assert(k[j] <= k[i]);
                assert(reps[j].qualityRanking is Some);
                assert(reps[i].qualityRanking is Some);
            }
        }
    }
}

/// The number of keys that the predicate accepts.
pub open spec fn count_keys(s: Seq<u64>, p: spec_fn(u64) -> bool) -> nat
    decreases s.len(),
{
    if s.len() == 0 {
        0
    } else {
        count_keys(s.drop_last(), p) + if p(s.last()) {
            1nat
        } else {
            0nat
        }
    }
}

proof fn lemma_count_keys_add(a: Seq<u64>, b: Seq<u64>, p: spec_fn(u64) -> bool)
    ensures
        count_keys(a + b, p) == count_keys(a, p) + count_keys(b, p),
    decreases b.len(),
{
    if b.len() == 0 {
        assert(a + b =~= a);
    } else {
        lemma_count_keys_add(a, b.drop_last(), p);
        assert((a + b).drop_last() =~= a + b.drop_last());
        assert((a + b).last() == b.last());
    }
}

proof fn lemma_count_keys_bounds(s: Seq<u64>, p: spec_fn(u64) -> bool)
    ensures
        count_keys(s, p) <= s.len(),
        (forall|i: int| 0 <= i < s.len() ==> p(#[trigger] s[i])) ==> count_keys(s, p) == s.len(),
        (forall|i: int| 0 <= i < s.len() ==> !p(#[trigger] s[i])) ==> count_keys(s, p) == 0,
    decreases s.len(),
{
    if s.len() > 0 {
        lemma_count_keys_bounds(s.drop_last(), p);
        assert(s.last() == s[s.len() - 1]);
        assert forall|i: int| 0 <= i < s.len() - 1 implies s.drop_last()[i] == s[i] by {}
    }
}

proof fn lemma_count_keys_remove(s: Seq<u64>, i: int, p: spec_fn(u64) -> bool)
    requires
        0 <= i < s.len(),
    ensures
        count_keys(s, p) == count_keys(s.remove(i), p) + if p(s[i]) {
            1nat
        } else {
            0nat
        },
{
    let l = s.subrange(0, i);
    let r = s.subrange(i + 1, s.len() as int);
    let x = seq![s[i]];
    assert(s =~= l + x + r);
    assert(s.remove(i) =~= l + r);
    lemma_count_keys_add(l + x, r, p);
    lemma_count_keys_add(l, x, p);
    lemma_count_keys_add(l, r, p);
    assert(x.drop_last() =~= Seq::<u64>::empty());
    assert(x.last() == s[i]);
    assert(count_keys(Seq::<u64>::empty(), p) == 0);
    assert(count_keys(x, p) == if p(s[i]) {
        1nat
    } else {
        0nat
    });
}

/// Keys in another order are counted alike.
proof fn lemma_count_keys_permutation(a: Seq<u64>, b: Seq<u64>, p: spec_fn(u64) -> bool)
    requires
        a.to_multiset() == b.to_multiset(),
    ensures
        count_keys(a, p) == count_keys(b, p),
    decreases a.len(),
{
    broadcast use vstd::seq_lib::group_to_multiset_ensures;
    broadcast use vstd::multiset::group_multiset_axioms;
    if a.len() == 0 {
        assert(a.to_multiset().len() == 0);
        assert(b.to_multiset().len() == b.len());
    } else {
        let x = a.last();
        let a0 = a.drop_last();
        assert(a0.push(x) =~= a);
        assert(a.to_multiset() == a0.to_multiset().insert(x));
        assert(b.to_multiset().count(x) > 0);
        assert(b.contains(x));
        let i = choose|i: int| 0 <= i < b.len() && b[i] == x;
        assert(b.remove(i).to_multiset() == b.to_multiset().remove(x));
        assert(a0.to_multiset().insert(x).remove(x) =~= a0.to_multiset());
        lemma_count_keys_permutation(a0, b.remove(i), p);
        lemma_count_keys_remove(b, i, p);
    }
}

/// In keys sorted in ascending order, fewer than `m + 1` keys are below the one at position `m`,
/// and more than `m` are at most it.
proof fn lemma_sorted_counts(s: Seq<u64>, m: int)
    requires
        0 <= m < s.len(),
        sorted_by(s, u64_leq()),
    ensures
        count_keys(s, |x: u64| x < s[m]) <= m,
        count_keys(s, |x: u64| x <= s[m]) > m,
{
    let v = s[m];
    let leq = u64_leq();
    let lt = |x: u64| x < v;
    let le = |x: u64| x <= v;
    let lo = s.take(m);
    let hi = s.skip(m);
    assert(s =~= lo + hi);
    lemma_count_keys_add(lo, hi, lt);
    lemma_count_keys_bounds(lo, lt);
    assert forall|i: int| 0 <= i < hi.len() implies !lt(#[trigger] hi[i]) by {
        assert(hi[i] == s[m + i]);
        if i > 0 {
            assert(leq(s[m], s[m + i]));
        }
    }
    lemma_count_keys_bounds(hi, lt);
    let lo1 = s.take(m + 1);
    let hi1 = s.skip(m + 1);
    assert(s =~= lo1 + hi1);
    lemma_count_keys_add(lo1, hi1, le);
    assert forall|i: int| 0 <= i < lo1.len() implies le(#[trigger] lo1[i]) by {
        assert(lo1[i] == s[i]);
        if i < m {
            assert(leq(s[i], s[m]));
        }
    }
    lemma_count_keys_bounds(lo1, le);
}

/// The median key splits the keys: at most half of them (`n / 2` of `n`) are below it, and more
/// than that are at most it.
pub proof fn lemma_median_key_splits(k: Seq<u64>)
    requires
        k.len() > 0,
    ensures
        k.contains(median_key(k)),
        count_keys(k, |x: u64| x < median_key(k)) <= k.len() / 2,
        count_keys(k, |x: u64| x <= median_key(k)) > k.len() / 2,
{
    let leq = u64_leq();
    assert(total_ordering(leq));
    k.lemma_sort_by_ensures(leq);
    let s = k.sort_by(leq);
    vstd::seq_lib::to_multiset_len(s);
    vstd::seq_lib::to_multiset_len(k);
    let n = k.len() as int;
    let v = s[n / 2];
    assert(v == median_key(k));
    assert(s.contains(v));
    vstd::seq_lib::to_multiset_contains(s, v);
    vstd::seq_lib::to_multiset_contains(k, v);
    lemma_count_keys_permutation(k, s, |x: u64| x < v);
    lemma_count_keys_permutation(k, s, |x: u64| x <= v);
    lemma_sorted_counts(s, n / 2);
}

/// With the Intermediate preference the chosen Representation is the first whose ranking key is
/// the median one: at most half of the keys are below its key, more than half are at most it, and
/// no Representation before it has its key.
pub proof fn lemma_intermediate_choice(reps: Seq<&Representation>, i: int)
    requires
        picked(
            rep_keys(reps, all_quality_ranked(reps), QualityPreference::Intermediate),
            pick_of(all_quality_ranked(reps), QualityPreference::Intermediate),
            i,
        ),
    ensures
        ({
            let k = rep_keys(reps, all_quality_ranked(reps), QualityPreference::Intermediate);
            &&& 0 <= i < reps.len()
            &&& count_keys(k, |x: u64| x < k[i]) <= reps.len() / 2
            &&& count_keys(k, |x: u64| x <= k[i]) > reps.len() / 2
            &&& forall|j: int| 0 <= j < i ==> k[j] != k[i]
        }),
{
    let k = rep_keys(reps, all_quality_ranked(reps), QualityPreference::Intermediate);
    lemma_median_key_splits(k);
}

/// The distance between a Representation's dimension and the wanted one; a Representation
/// without that dimension is as far as can be.
pub open spec fn dimension_distance(dim: Option<u64>, want: u64) -> u64 {
    match dim {
        Some(v) => if want >= v {
            (want - v) as u64
        } else {
            (v - want) as u64
        },
        None => u64::MAX,
    }
}

/// The distances of the Representations' widths (or heights) to the wanted one.
pub open spec fn dimension_keys(rs: Seq<&Representation>, by_width: bool, want: u64) -> Seq<u64> {
    rs.map_values(
        |x: &Representation|
            if by_width {
                dimension_distance(x.width, want)
            } else {
                dimension_distance(x.height, want)
            },
    )
}

/// How far a dimension is from the wanted one.
pub open spec fn gap(x: u64, want: u64) -> int {
    if x >= want {
        x - want
    } else {
        want - x
    }
}

/// With a preferred width, the Representation chosen has a width, and none has a width closer
/// to the preferred one; the one exception is a width that is as far as a `u64` allows
/// (0 against `u64::MAX`), which counts the same as no width. Likewise with a preferred height.
pub proof fn lemma_dimension_choice(reps: Seq<&Representation>, by_width: bool, want: u64, i: int)
    requires
        is_first_min(dimension_keys(reps, by_width, want), i),
    ensures
        0 <= i < reps.len(),
        by_width ==> forall|j: int|
            0 <= j < reps.len() && (#[trigger] reps[j]).width is Some ==> (reps[i].width is Some && gap(
                reps[i].width->0,
                want,
            ) <= gap(reps[j].width->0, want)) || gap(reps[j].width->0, want) == u64::MAX,
        !by_width ==> forall|j: int|
            0 <= j < reps.len() && (#[trigger] reps[j]).height is Some ==> (reps[i].height is Some && gap(
                reps[i].height->0,
                want,
            ) <= gap(reps[j].height->0, want)) || gap(reps[j].height->0, want) == u64::MAX,
{
    let k = dimension_keys(reps, by_width, want);
    assert forall|j: int| 0 <= j < reps.len() implies k[j] == if by_width {
        dimension_distance(reps[j].width, want)
    } else {
        dimension_distance(reps[j].height, want)
    } by {}
    assert forall|j: int| 0 <= j < reps.len() implies k[i] <= #[trigger] k[j] by {}
    assert forall|o: Option<u64>| #[trigger] dimension_distance(o, want) == match o {
        Some(v) => gap(v, want),
        None => u64::MAX as int,
    } by {}
    if by_width {
        assert forall|j: int| 0 <= j < reps.len() && (#[trigger] reps[j]).width is Some implies (reps[i].width is Some
            && gap(reps[i].width->0, want) <= gap(reps[j].width->0, want)) || gap(reps[j].width->0, want)
            == u64::MAX by {
            assert(k[i] <= k[j]);
            assert(k[j] == dimension_distance(reps[j].width, want));
            assert(k[i] == dimension_distance(reps[i].width, want));
        }
    } else {
        assert forall|j: int| 0 <= j < reps.len() && (#[trigger] reps[j]).height is Some implies (reps[i].height is Some
            && gap(reps[i].height->0, want) <= gap(reps[j].height->0, want)) || gap(reps[j].height->0, want)
            == u64::MAX by {
            assert(k[i] <= k[j]);
            assert(k[j] == dimension_distance(reps[j].height, want));
            assert(k[i] == dimension_distance(reps[i].height, want));
        }
    }
}

/// The Representation for video content: with a preferred video width, the first of those whose
/// width is closest to it; else with a preferred height, the first of those whose height is
/// closest to it; else the one the quality preference picks.
pub fn select_video_representation<'a>(
    representations: &[&'a Representation],
    width_preference: Option<u64>,
    height_preference: Option<u64>,
    quality_preference: QualityPreference,
) -> (r: Option<&'a Representation>)
    ensures
        representations.len() == 0 ==> r is None,
        representations.len() > 0 ==> match (width_preference, height_preference) {
            (Some(w), _) => exists|i: int|
                is_first_min(dimension_keys(representations@, true, w), i) && r == Some(
                    representations@[i],
                ),
            (None, Some(h)) => exists|i: int|
                is_first_min(dimension_keys(representations@, false, h), i) && r == Some(
                    representations@[i],
                ),
            (None, None) => exists|i: int|
                0 <= i < representations.len() && r == Some(representations@[i]) && picked(
                    rep_keys(representations@, all_quality_ranked(representations@), quality_preference),
                    pick_of(all_quality_ranked(representations@), quality_preference),
                    i,
                ),
        },
{
    if representations.len() == 0 {
        return None;
    }
    let (want, by_width) = match width_preference {
        Some(w) => (w, true),
        None => match height_preference {
            Some(h) => (h, false),
            None => return select_preferred_representation(representations, quality_preference),
        },
    };
    let mut keys: Vec<u64> = Vec::new();
    let ghost k = dimension_keys(representations@, by_width, want);
    let mut i: usize = 0;
    while i < representations.len()
        invariant
            i <= representations.len(),
            k == dimension_keys(representations@, by_width, want),
            keys@ == k.take(i as int),
        decreases representations.len() - i,
    {
        let dim = if by_width {
            representations[i].width
        } else {
            representations[i].height
        };
        let d = match dim {
            Some(v) => if want >= v {
                want - v
            } else {
                v - want
            },
            None => u64::MAX,
        };
        keys.push(d);
        assert(keys@ =~= k.take(i + 1));
        i = i + 1;
    }
    assert(keys@ =~= k);
    let j = index_first_min(&keys);
    let r = representations[j];
    assert(Some(r) == Some(representations@[j as int]));
    Some(r)
}

} // verus!
