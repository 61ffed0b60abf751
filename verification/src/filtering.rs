//! Two facts about filtered sequences that the loops over voxels rest on.
use vstd::prelude::*;

verus! {

/// Filtering one more element of a sequence either appends it or changes
/// nothing.
pub proof fn lemma_filter_step<A>(s: Seq<A>, pred: spec_fn(A) -> bool, n: int)
    requires
        0 <= n < s.len(),
    ensures
        s.subrange(0, n + 1).filter(pred) == if pred(s[n]) {
            s.subrange(0, n).filter(pred).push(s[n])
        } else {
            s.subrange(0, n).filter(pred)
        },
        s.subrange(0, 0).filter(pred) == Seq::<A>::empty(),
{
    reveal(Seq::filter);
    assert(s.subrange(0, n + 1).drop_last() =~= s.subrange(0, n));
    assert(s.subrange(0, n + 1).last() == s[n]);
    assert(s.subrange(0, 0).filter(pred) =~= Seq::<A>::empty());
}

/// A filtered sequence holds exactly the elements of the sequence that pass
/// the test.
pub proof fn lemma_filter_members<A>(s: Seq<A>, pred: spec_fn(A) -> bool, v: A)
    ensures
        s.filter(pred).contains(v) <==> s.contains(v) && pred(v),
    decreases s.len(),
{
    reveal(Seq::filter);
    if s.len() > 0 {
        let rest = s.drop_last();
        lemma_filter_members(rest, pred, v);
        let out = s.filter(pred);
        if out.contains(v) {
            let j = choose|j: int| 0 <= j < out.len() && out[j] == v;
            if pred(s.last()) && j == out.len() - 1 {
                assert(s[s.len() - 1] == v);
            } else {
                assert(rest.filter(pred)[j] == v);
                assert(rest.filter(pred).contains(v));
                let m = choose|m: int| 0 <= m < rest.len() && rest[m] == v;
                assert(s[m] == v);
            }
        }
        if s.contains(v) && pred(v) {
            let m = choose|m: int| 0 <= m < s.len() && s[m] == v;
            if m == s.len() - 1 {
                assert(out[out.len() - 1] == v);
            } else {
                assert(rest[m] == v);
                assert(rest.contains(v));
                let j = choose|j: int| 0 <= j < rest.filter(pred).len() && rest.filter(pred)[j] == v;
                assert(out[j] == v);
            }
        }
    }
}

} // verus!
