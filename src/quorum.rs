//! Majority quorums over a fixed set of `n` acceptors, numbered `0..n`.
use vstd::prelude::*;
use vstd::set_lib::{lemma_int_range, lemma_len_subset, lemma_set_disjoint_lens, set_int_range};

verus! {

/// A majority of `n`: `n / 2 + 1`.
pub open spec fn quorum_of(n: nat) -> nat {
    n / 2 + 1
}

/// `q` is a quorum of the acceptors `0..n`: a set of their indices holding a majority.
pub open spec fn is_quorum(q: Set<int>, n: nat) -> bool {
    &&& q.finite()
    &&& forall|i: int| #[trigger] q.contains(i) ==> 0 <= i < n
    &&& q.len() >= quorum_of(n)
}

/// The number of matching replies that decides a phase among `n` acceptors.
pub fn quorum_size(n: usize) -> (r: usize)
    ensures
        r == quorum_of(n as nat),
{
    n / 2 + 1
}

/// Any two quorums of the same `n` acceptors share at least one acceptor.
pub proof fn lemma_quorums_intersect(a: Set<int>, b: Set<int>, n: nat)
    requires
        is_quorum(a, n),
        is_quorum(b, n),
    ensures
        exists|i: int| a.contains(i) && b.contains(i),
{
    if forall|i: int| !(a.contains(i) && b.contains(i)) {
        let all = set_int_range(0, n as int);
        lemma_int_range(0, n as int);
        assert(a.disjoint(b));
        lemma_set_disjoint_lens(a, b);
        assert((a + b).subset_of(all));
        lemma_len_subset(a + b, all);
        assert(false);
    }
}

} // verus!
