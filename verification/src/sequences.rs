//! Facts about sequences that the loops of the library rest on.

use vstd::prelude::*;

verus! {

/// Filtering one element more of `s` appends that element where `keep` holds
/// of it, and changes nothing where it does not.
pub proof fn lemma_filter_next<A>(s: Seq<A>, keep: spec_fn(A) -> bool, i: int)
    requires
        0 <= i < s.len(),
    ensures
        s.take(i + 1).filter(keep) == if keep(s[i]) {
            s.take(i).filter(keep).push(s[i])
        } else {
            s.take(i).filter(keep)
        },
{
    reveal_with_fuel(Seq::filter, 2);
    assert(s.take(i + 1).drop_last() == s.take(i));
}

} // verus!
