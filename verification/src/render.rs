//! Rendering lists into text: the concatenation of one piece per item.
use vstd::prelude::*;
use crate::text::{lemma_contains_middle, lemma_contains_within, seq_contains};

verus! {

/// The pieces `f(x)` for the items `x` of `s`, concatenated in order.
pub open spec fn render<T>(s: Seq<T>, f: spec_fn(T) -> Seq<char>) -> Seq<char> {
    s.map_values(f).flatten_alt()
}

/// The items of `s`, joined by `sep`.
pub open spec fn join(s: Seq<Seq<char>>, sep: Seq<char>) -> Seq<char>
    decreases s.len(),
{
    if s.len() == 0 {
        Seq::empty()
    } else if s.len() == 1 {
        s[0]
    } else {
        join(s.drop_last(), sep) + sep + s.last()
    }
}

/// Rendering one more item appends its text.
pub proof fn lemma_render_push<T>(s: Seq<T>, x: T, f: spec_fn(T) -> Seq<char>)
    ensures
        render(s.push(x), f) == render(s, f) + f(x),
{
    assert(s.push(x).map_values(f).drop_last() =~= s.map_values(f));
    assert(s.push(x).map_values(f).last() == f(x));
}

/// One step of a loop that renders `s[0..i]`.
pub proof fn lemma_render_take<T>(s: Seq<T>, i: int, f: spec_fn(T) -> Seq<char>)
    requires
        0 <= i < s.len(),
    ensures
        render(s.take(i + 1), f) == render(s.take(i), f) + f(s[i]),
{
    assert(s.take(i + 1) =~= s.take(i).push(s[i]));
    lemma_render_push(s.take(i), s[i], f);
}

/// One step of a loop that renders the items of `s[0..i]` that satisfy `p`.
pub proof fn lemma_render_filter_take<T>(s: Seq<T>, i: int, p: spec_fn(T) -> bool, f: spec_fn(T) -> Seq<char>)
    requires
        0 <= i < s.len(),
    ensures
        s.take(i + 1).filter(p) == if p(s[i]) {
            s.take(i).filter(p).push(s[i])
        } else {
            s.take(i).filter(p)
        },
        render(s.take(i + 1).filter(p), f) == render(s.take(i).filter(p), f) + if p(s[i]) {
            f(s[i])
        } else {
            Seq::<char>::empty()
        },
{
    reveal(Seq::filter);
    assert(s.take(i + 1).drop_last() =~= s.take(i));
    assert(s.take(i + 1).last() == s[i]);
    if p(s[i]) {
        lemma_render_push(s.take(i).filter(p), s[i], f);
    } else {
        assert(render(s.take(i).filter(p), f) + Seq::<char>::empty() =~= render(s.take(i).filter(p), f));
    }
}

pub proof fn lemma_take_full<T>(s: Seq<T>)
    ensures
        s.take(s.len() as int) == s,
{
    assert(s.take(s.len() as int) =~= s);
}

pub proof fn lemma_join_push(s: Seq<Seq<char>>, x: Seq<char>, sep: Seq<char>)
    ensures
        join(s.push(x), sep) == if s.len() == 0 {
            x
        } else {
            join(s, sep) + sep + x
        },
{
    assert(s.push(x).drop_last() =~= s);
}

/// The rendering of a list holds the piece of each of its items.
pub proof fn lemma_render_contains<T>(s: Seq<T>, f: spec_fn(T) -> Seq<char>, k: int)
    requires
        0 <= k < s.len(),
    ensures
        seq_contains(render(s, f), f(s[k])),
    decreases s.len(),
{
    let prev = s.drop_last();
    assert(s =~= prev.push(s.last()));
    lemma_render_push(prev, s.last(), f);
    if k == s.len() - 1 {
        lemma_contains_middle(render(prev, f), f(s[k]), Seq::empty());
        assert(render(prev, f) + f(s[k]) + Seq::<char>::empty() =~= render(s, f));
    } else {
        lemma_render_contains(prev, f, k);
        assert(prev[k] == s[k]);
        lemma_contains_within(render(prev, f), f(s[k]), Seq::empty(), f(s.last()));
        assert(Seq::<char>::empty() + render(prev, f) + f(s.last()) =~= render(s, f));
    }
}

/// The rendering of the items that satisfy `p` holds the piece of each
/// such item.
pub proof fn lemma_render_filter_contains<T>(s: Seq<T>, p: spec_fn(T) -> bool, f: spec_fn(T) -> Seq<char>, i: int)
    requires
        0 <= i < s.len(),
        p(s[i]),
    ensures
        s.filter(p).len() > 0,
        seq_contains(render(s.filter(p), f), f(s[i])),
{
    s.lemma_filter_contains(p, i);
    let k = choose|k: int| 0 <= k < s.filter(p).len() && s.filter(p)[k] == s[i];
    lemma_render_contains(s.filter(p), f, k);
}

} // verus!
