//! Lists of messages: their character views, and the concatenation of the messages produced for
//! each element of a sequence.

use vstd::prelude::*;

verus! {

/// The characters of each message.
pub open spec fn views(v: Seq<String>) -> Seq<Seq<char>> {
    v.map_values(|s: String| s@)
}

/// The messages `f` produces for each element of `s`, one element after the other.
pub open spec fn concat_map<A>(s: Seq<A>, f: spec_fn(A) -> Seq<Seq<char>>) -> Seq<Seq<char>>
    decreases s.len(),
{
    if s.len() == 0 {
        seq![]
    } else {
        concat_map(s.drop_last(), f) + f(s.last())
    }
}

/// The strings, one after the other.
pub open spec fn concat_all(ls: Seq<Seq<char>>) -> Seq<char>
    decreases ls.len(),
{
    if ls.len() == 0 {
        seq![]
    } else {
        concat_all(ls.drop_last()) + ls.last()
    }
}

/// One message `m` when `c` holds, none otherwise.
pub open spec fn msg_if(c: bool, m: Seq<char>) -> Seq<Seq<char>> {
    if c {
        seq![m]
    } else {
        seq![]
    }
}

/// Extending a prefix of `s` by one element adds that element's messages at the end.
pub proof fn lemma_concat_map_step<A>(s: Seq<A>, f: spec_fn(A) -> Seq<Seq<char>>, i: int)
    requires
        0 <= i < s.len(),
    ensures
        concat_map(s.take(i + 1), f) == concat_map(s.take(i), f) + f(s[i]),
{
    assert(s.take(i + 1).drop_last() =~= s.take(i));
}

/// A message of one element's messages is among the messages of the whole sequence.
pub proof fn lemma_concat_map_contains<A>(s: Seq<A>, f: spec_fn(A) -> Seq<Seq<char>>, i: int, x: Seq<char>)
    requires
        0 <= i < s.len(),
        f(s[i]).contains(x),
    ensures
        concat_map(s, f).contains(x),
    decreases s.len(),
{
    let head = concat_map(s.drop_last(), f);
    let tail = f(s.last());
    assert(concat_map(s, f) == head + tail);
    if i == s.len() - 1 {
        let k = choose|k: int| 0 <= k < tail.len() && tail[k] == x;
        assert((head + tail)[head.len() + k] == x);
    } else {
        assert(s.drop_last()[i] == s[i]);
        lemma_concat_map_contains(s.drop_last(), f, i, x);
        let k = choose|k: int| 0 <= k < head.len() && head[k] == x;
        assert((head + tail)[k] == x);
    }
}

/// A message among the messages of a sequence is among the messages of one of its elements.
pub proof fn lemma_concat_map_member<A>(s: Seq<A>, f: spec_fn(A) -> Seq<Seq<char>>, x: Seq<char>)
    ensures
        concat_map(s, f).contains(x) ==> exists|i: int| 0 <= i < s.len() && (#[trigger] f(s[i])).contains(x),
    decreases s.len(),
{
    if s.len() > 0 && concat_map(s, f).contains(x) {
        let head = concat_map(s.drop_last(), f);
        let tail = f(s.last());
        assert(concat_map(s, f) == head + tail);
        let k = choose|k: int| 0 <= k < (head + tail).len() && (head + tail)[k] == x;
        if k < head.len() {
            assert(head[k] == x);
            lemma_concat_map_member(s.drop_last(), f, x);
            let i = choose|i: int| 0 <= i < s.drop_last().len() && (#[trigger] f(s.drop_last()[i])).contains(x);
            assert(s.drop_last()[i] == s[i]);
            assert(f(s[i]).contains(x));
        } else {
            assert(tail[k - head.len()] == x);
            assert(f(s[s.len() - 1]).contains(x));
        }
    }
}

/// A message of two lists put together is a message of one of them.
pub proof fn lemma_add_contains(a: Seq<Seq<char>>, b: Seq<Seq<char>>, x: Seq<char>)
    ensures
        (a + b).contains(x) ==> a.contains(x) || b.contains(x),
{
    if (a + b).contains(x) {
        let k = choose|k: int| 0 <= k < (a + b).len() && (a + b)[k] == x;
        if k < a.len() {
            assert(a[k] == x);
        } else {
            assert(b[k - a.len()] == x);
        }
    }
}

/// The one message of `msg_if` is `m`, given when `c` holds.
pub proof fn lemma_msg_if_contains(c: bool, m: Seq<char>, x: Seq<char>)
    ensures
        msg_if(c, m).contains(x) ==> c && m == x,
{
    if msg_if(c, m).contains(x) {
        let k = choose|k: int| 0 <= k < msg_if(c, m).len() && msg_if(c, m)[k] == x;
        assert(k == 0);
    }
}

/// The whole of `s` is its longest prefix.
pub proof fn lemma_take_all<A>(s: Seq<A>)
    ensures
        s.take(s.len() as int) == s,
{
    assert(s.take(s.len() as int) =~= s);
}

/// Appends one message.
pub fn push_msg(v: &mut Vec<String>, m: String)
    ensures
        views(final(v)@) == views(old(v)@).push(m@),
{
    v.push(m);
    assert(views(v@) =~= views(old(v)@).push(m@));
}

/// Appends the messages of `more`, in order.
pub fn append_msgs(v: &mut Vec<String>, more: Vec<String>)
    ensures
        views(final(v)@) == views(old(v)@) + views(more@),
{
    let mut more = more;
    let ghost old_v = v@;
    let ghost old_more = more@;
    v.append(&mut more);
    assert(views(v@) =~= views(old_v) + views(old_more));
}

} // verus!
