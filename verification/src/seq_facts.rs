use vstd::prelude::*;

verus! {

/// Filtering a prefix one element longer adds that element exactly when it
/// passes the predicate.
pub proof fn lemma_filter_take_step<A>(s: Seq<A>, pred: spec_fn(A) -> bool, i: int)
    requires
        0 <= i < s.len(),
    ensures
        s.take(i + 1).filter(pred) == (if pred(s[i]) {
            s.take(i).filter(pred).push(s[i])
        } else {
            s.take(i).filter(pred)
        }),
{
    reveal(Seq::filter);
    assert(s.take(i + 1).drop_last() =~= s.take(i));
    assert(s.take(i + 1).last() == s[i]);
}

/// Filtering the full prefix is filtering the sequence.
pub proof fn lemma_filter_take_all<A>(s: Seq<A>, pred: spec_fn(A) -> bool)
    ensures
        s.take(s.len() as int).filter(pred) == s.filter(pred),
{
    assert(s.take(s.len() as int) =~= s);
}

/// The indices `0, 1, ..., n - 1`, in order.
pub open spec fn indices(n: nat) -> Seq<int> {
    Seq::new(n, |i: int| i)
}

/// Filtering the indices up to `n + 1` adds `n` exactly when it passes.
pub proof fn lemma_indices_filter_step(n: nat, pred: spec_fn(int) -> bool)
    ensures
        indices(n + 1).filter(pred) == (if pred(n as int) {
            indices(n).filter(pred).push(n as int)
        } else {
            indices(n).filter(pred)
        }),
{
    reveal(Seq::filter);
    assert(indices(n + 1).drop_last() =~= indices(n));
    assert(indices(n + 1).last() == n as int);
}

/// Mapping a sequence with one more element appends the image of it.
pub proof fn lemma_map_push<A, B>(s: Seq<A>, a: A, f: spec_fn(A) -> B)
    ensures
        s.push(a).map_values(f) == s.map_values(f).push(f(a)),
{
    assert(s.push(a).map_values(f) =~= s.map_values(f).push(f(a)));
}

/// An element of a sequence is kept by a filter exactly when it passes.
pub proof fn lemma_filter_keeps_exactly<A>(s: Seq<A>, pred: spec_fn(A) -> bool, i: int)
    requires
        0 <= i < s.len(),
    ensures
        s.filter(pred).contains(s[i]) <==> pred(s[i]),
{
    broadcast use vstd::seq_lib::group_filter_ensures;

    if s.filter(pred).contains(s[i]) {
        let k = choose|k: int| 0 <= k < s.filter(pred).len() && s.filter(pred)[k] == s[i];
        assert(pred(s.filter(pred)[k]));
    }
}

} // verus!
