//! Proposal numbers: a `(timestamp, server_id)` pair ordered lexicographically.
use vstd::prelude::*;

verus! {

/// Identifies a proposal. `timestamp` is a counter local to one proposer and
/// `server_id` is that proposer's identifier, so ids generated concurrently by
/// different proposers are distinct and comparable.
#[derive(Clone, Copy, Debug, PartialEq, Eq, Structural)]
pub struct ProposalId {
    pub timestamp: usize,
    pub server_id: usize,
}

/// `a` orders strictly before `b`: timestamp first, then `server_id`.
pub open spec fn id_lt(a: ProposalId, b: ProposalId) -> bool {
    a.timestamp < b.timestamp || (a.timestamp == b.timestamp && a.server_id < b.server_id)
}

/// `a` orders before or equal to `b`.
pub open spec fn id_le(a: ProposalId, b: ProposalId) -> bool {
    id_lt(a, b) || a == b
}

/// The lowest id, `(0, 0)`, standing for "nothing proposed yet".
pub open spec fn lowest_id() -> ProposalId {
    ProposalId { timestamp: 0, server_id: 0 }
}

impl ProposalId {
    pub fn new(timestamp: usize, server_id: usize) -> (r: ProposalId)
        ensures
            r.timestamp == timestamp,
            r.server_id == server_id,
    {
        ProposalId { timestamp, server_id }
    }

    /// Whether `self` is strictly greater than `other`.
    pub fn exceeds(&self, other: &ProposalId) -> (r: bool)
        ensures
            r == id_lt(*other, *self),
    {
        self.timestamp > other.timestamp || (self.timestamp == other.timestamp
            && self.server_id > other.server_id)
    }

    /// Whether `self` is greater than or equal to `other`.
    pub fn at_least(&self, other: &ProposalId) -> (r: bool)
        ensures
            r == id_le(*other, *self),
    {
        self.exceeds(other) || (self.timestamp == other.timestamp && self.server_id
            == other.server_id)
    }

}

impl Default for ProposalId {
    fn default() -> (r: ProposalId)
        ensures
            r == lowest_id(),
    {
        ProposalId { timestamp: 0, server_id: 0 }
    }
}

/// The order on proposal ids is a strict total order: irreflexive,
/// transitive, and for any two distinct ids exactly one is greater.
pub proof fn lemma_id_order_strict_total(a: ProposalId, b: ProposalId, c: ProposalId)
    ensures
        !id_lt(a, a),
        id_lt(a, b) && id_lt(b, c) ==> id_lt(a, c),
        a != b ==> (id_lt(a, b) || id_lt(b, a)),
        !(id_lt(a, b) && id_lt(b, a)),
{
}

/// Every id is at least the lowest id.
pub proof fn lemma_lowest_id_is_least(a: ProposalId)
    ensures
        id_le(lowest_id(), a),
{
}

} // verus!
