//! First-match-wins selection over an ordered list of matcher outcomes:
//! the first successful extraction wins, and no extraction at all is a
//! normal outcome, not an error.
use vstd::prelude::*;

verus! {

/// The first `Some` in an ordered list of outcomes, or `None` when every
/// outcome is `None`.
pub open spec fn first_some<T>(rs: Seq<Option<T>>) -> Option<T>
    decreases rs.len(),
{
    if rs.len() == 0 {
        None
    } else if rs[0] is Some {
        rs[0]
    } else {
        first_some(rs.skip(1))
    }
}

/// When outcome `i` is a success and every earlier outcome is not, the
/// selection is outcome `i`, whatever the later outcomes are.
pub proof fn lemma_first_some_at<T>(rs: Seq<Option<T>>, i: int)
    requires
        0 <= i < rs.len(),
        rs[i] is Some,
        forall|k: int| 0 <= k < i ==> rs[k] is None,
    ensures
        first_some(rs) == rs[i],
    decreases i,
{
    if i == 0 {
    } else {
        assert(rs.skip(1)[i - 1] == rs[i]);
        assert(forall|k: int| 0 <= k < i - 1 ==> rs.skip(1)[k] is None);
        lemma_first_some_at(rs.skip(1), i - 1);
    }
}

/// A successful selection is one of the outcomes: it was not invented.
pub proof fn lemma_first_some_found<T>(rs: Seq<Option<T>>)
    ensures
        first_some(rs) is Some ==> exists|i: int|
            0 <= i < rs.len() && rs[i] == first_some(rs),
    decreases rs.len(),
{
    if rs.len() > 0 && !(rs[0] is Some) {
        lemma_first_some_found(rs.skip(1));
        if first_some(rs) is Some {
            let i = choose|i: int| 0 <= i < rs.skip(1).len() && rs.skip(1)[i] == first_some(
                rs.skip(1),
            );
            assert(rs[i + 1] == first_some(rs));
        }
    }
}

/// When every outcome is a failure, the selection is a failure.
pub proof fn lemma_first_some_none<T>(rs: Seq<Option<T>>)
    requires
        forall|k: int| 0 <= k < rs.len() ==> rs[k] is None,
    ensures
        first_some(rs) is None,
    decreases rs.len(),
{
    if rs.len() > 0 {
        assert(forall|k: int| 0 <= k < rs.skip(1).len() ==> rs.skip(1)[k] is None);
        lemma_first_some_none(rs.skip(1));
    }
}

} // verus!
