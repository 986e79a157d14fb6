//! Safety of the protocol: no run chooses two values.
//!
//! A run is modelled by its [`Ballots`]: every acceptor's promise, every vote
//! ever cast, and the value proposed under each id. Acceptors move as their
//! handlers do; a proposer may enter Phase 2 only with promises from a quorum
//! and with the value those promises dictate. Over any interleaving of such
//! events, every proposed value stays safe at its id, and so two quorums
//! never choose two different values.
use vstd::prelude::*;

use crate::acceptor::{
    accept_reply, accept_state, prepare_state, AcceptorView, PrepareResponse,
};
use crate::proposal_id::{id_le, id_lt, lemma_id_order_strict_total, lowest_id, ProposalId};
use crate::proposer::{best_of, lemma_best_of_is_highest, value_to_propose};
use crate::quorum::{is_quorum, lemma_quorums_intersect};

verus! {

/// One recorded acceptance: acceptor `acceptor` accepted `value` under `id`.
pub struct Vote {
    pub acceptor: int,
    pub id: ProposalId,
    pub value: usize,
}

/// `value` is chosen under `id`: some quorum of the `n` acceptors accepted it under `id`.
pub open spec fn chosen_at(votes: Set<Vote>, n: nat, id: ProposalId, value: usize) -> bool {
    exists|q: Set<int>|
        is_quorum(q, n) && forall|a: int|
            #[trigger] q.contains(a) ==> votes.contains(Vote { acceptor: a, id, value })
}

/// `value` is chosen under some id.
pub open spec fn chosen(votes: Set<Vote>, n: nat, value: usize) -> bool {
    exists|id: ProposalId| chosen_at(votes, n, id, value)
}

/// Under every id below `id`, some quorum has accepted no value other than `value`.
pub open spec fn safe_at(votes: Set<Vote>, n: nat, id: ProposalId, value: usize) -> bool {
    forall|c: ProposalId|
        #![trigger id_lt(c, id)]
        id_lt(c, id) ==> exists|q: Set<int>|
            is_quorum(q, n) && forall|a: int, w: usize|
                q.contains(a) && w != value ==> !#[trigger] votes.contains(
                    Vote { acceptor: a, id: c, value: w },
                )
}

/// Every vote carries the single value proposed under its id, and every
/// proposed value is safe at its id.
pub open spec fn votes_consistent(
    votes: Set<Vote>,
    proposals: Map<ProposalId, usize>,
    n: nat,
) -> bool {
    &&& forall|v: Vote| #[trigger]
        votes.contains(v) ==> proposals.contains_key(v.id) && proposals[v.id] == v.value
    &&& forall|id: ProposalId| #[trigger]
        proposals.contains_key(id) ==> safe_at(votes, n, id, proposals[id])
}

/// The shared state of a run of the protocol: each acceptor's promise, every
/// vote ever cast, and the value proposed under each id that reached Phase 2.
pub struct Ballots {
    pub promise: Map<int, ProposalId>,
    pub votes: Set<Vote>,
    pub proposals: Map<ProposalId, usize>,
}

/// Acceptor `a`'s promise; the lowest id where none was recorded.
pub open spec fn promise_of(s: Ballots, a: int) -> ProposalId {
    if s.promise.contains_key(a) {
        s.promise[a]
    } else {
        lowest_id()
    }
}

/// Under every id below `id`, some quorum has promised above it and accepted
/// no value other than `value` under it.
pub open spec fn safe_in(s: Ballots, n: nat, id: ProposalId, value: usize) -> bool {
    forall|c: ProposalId|
        #![trigger id_lt(c, id)]
        id_lt(c, id) ==> exists|q: Set<int>|
            is_quorum(q, n) && forall|a: int|
                #[trigger] q.contains(a) ==> id_lt(c, promise_of(s, a)) && forall|w: usize|
                    w != value ==> !#[trigger] s.votes.contains(
                        Vote { acceptor: a, id: c, value: w },
                    )
}

/// Each vote carries the value proposed under its id and lies at or below its
/// voter's promise, and each proposed value is safe at its id.
pub open spec fn ballots_inv(s: Ballots, n: nat) -> bool {
    &&& forall|v: Vote| #[trigger]
        s.votes.contains(v) ==> s.proposals.contains_key(v.id) && s.proposals[v.id] == v.value
    &&& forall|v: Vote| #[trigger] s.votes.contains(v) ==> id_le(v.id, promise_of(s, v.acceptor))
    &&& forall|id: ProposalId| #[trigger]
        s.proposals.contains_key(id) ==> safe_in(s, n, id, s.proposals[id])
}

/// One step of a run, by any acceptor or any proposer.
pub enum Event {
    /// Acceptor `acceptor` handles `Prepare(id)`.
    Promise { acceptor: int, id: ProposalId },
    /// Acceptor `acceptor` handles `Propose(id, v)`, `v` being the value proposed under `id`.
    Accept { acceptor: int, id: ProposalId },
    /// A proposer that holds promises for `id` from `quorum` begins Phase 2 with `value`.
    Propose { id: ProposalId, value: usize, quorum: Set<int> },
}

/// `value` is what a proposer may carry into Phase 2 under `id` after the
/// promises of `q`: the value of the highest vote below `id` that `q`'s
/// members report, or any value if they report none.
pub open spec fn adoptable(s: Ballots, q: Set<int>, id: ProposalId, value: usize) -> bool {
    ||| forall|a: int, c: ProposalId, w: usize|
        q.contains(a) && id_lt(c, id) ==> !#[trigger] s.votes.contains(
            Vote { acceptor: a, id: c, value: w },
        )
    ||| exists|a0: int, k: ProposalId|
        #![trigger s.votes.contains(Vote { acceptor: a0, id: k, value })]
        q.contains(a0) && id_lt(k, id) && s.votes.contains(Vote { acceptor: a0, id: k, value })
            && forall|a: int, c: ProposalId, w: usize|
            q.contains(a) && id_lt(c, id) && #[trigger] s.votes.contains(
                Vote { acceptor: a, id: c, value: w },
            ) ==> id_le(c, k)
}

/// Whether `e` may happen in `s`.
pub open spec fn enabled(s: Ballots, n: nat, e: Event) -> bool {
    match e {
        Event::Promise { .. } => true,
        Event::Accept { acceptor, id } => s.proposals.contains_key(id),
        Event::Propose { id, value, quorum } => {
            &&& !s.proposals.contains_key(id)
            &&& is_quorum(quorum, n)
            &&& forall|a: int| #[trigger] quorum.contains(a) ==> id_le(id, promise_of(s, a))
            &&& adoptable(s, quorum, id, value)
        },
    }
}

/// The state after `e`. An acceptor changes state only as its handlers do:
/// the promise rises on a greater `Prepare`, and a `Propose` at or above the
/// promise is recorded.
pub open spec fn next(s: Ballots, e: Event) -> Ballots {
    match e {
        Event::Promise { acceptor, id } => if id_lt(promise_of(s, acceptor), id) {
            Ballots { promise: s.promise.insert(acceptor, id), ..s }
        } else {
            s
        },
        Event::Accept { acceptor, id } => if id_le(promise_of(s, acceptor), id) {
            Ballots {
                promise: s.promise.insert(acceptor, id),
                votes: s.votes.insert(Vote { acceptor, id, value: s.proposals[id] }),
                proposals: s.proposals,
            }
        } else {
            s
        },
        Event::Propose { id, value, quorum } => Ballots {
            proposals: s.proposals.insert(id, value),
            ..s
        },
    }
}

/// The state after the enabled events of `es`, in order; others are skipped.
pub open spec fn run_events(s: Ballots, n: nat, es: Seq<Event>) -> Ballots
    decreases es.len(),
{
    if es.len() == 0 {
        s
    } else {
        let t = if enabled(s, n, es[0]) {
            next(s, es[0])
        } else {
            s
        };
        run_events(t, n, es.drop_first())
    }
}

/// Nothing promised, voted or proposed.
pub open spec fn initial_ballots() -> Ballots {
    Ballots { promise: Map::empty(), votes: Set::empty(), proposals: Map::empty() }
}

proof fn lemma_chosen_lower_then_higher(
    votes: Set<Vote>,
    proposals: Map<ProposalId, usize>,
    n: nat,
    b1: ProposalId,
    v1: usize,
    b2: ProposalId,
    v2: usize,
)
    requires
        votes_consistent(votes, proposals, n),
        chosen_at(votes, n, b1, v1),
        chosen_at(votes, n, b2, v2),
        id_lt(b1, b2),
    ensures
        v1 == v2,
{
    let q1 = choose|q: Set<int>|
        is_quorum(q, n) && forall|a: int|
            #[trigger] q.contains(a) ==> votes.contains(Vote { acceptor: a, id: b1, value: v1 });
    let q2 = choose|q: Set<int>|
        is_quorum(q, n) && forall|a: int|
            #[trigger] q.contains(a) ==> votes.contains(Vote { acceptor: a, id: b2, value: v2 });
    lemma_quorums_intersect(q2, q2, n);
    let a2 = choose|i: int| q2.contains(i) && q2.contains(i);
    assert(votes.contains(Vote { acceptor: a2, id: b2, value: v2 }));
    assert(proposals.contains_key(b2) && proposals[b2] == v2);
    assert(safe_at(votes, n, b2, v2));
    assert(id_lt(b1, b2));
    let q = choose|q: Set<int>|
        is_quorum(q, n) && forall|a: int, w: usize|
            q.contains(a) && w != v2 ==> !#[trigger] votes.contains(
                Vote { acceptor: a, id: b1, value: w },
            );
    lemma_quorums_intersect(q, q1, n);
    let a = choose|i: int| q.contains(i) && q1.contains(i);
    assert(votes.contains(Vote { acceptor: a, id: b1, value: v1 }));
}

/// Agreement: in a history of votes where each vote carries the one value
/// proposed under its id and each proposed value is safe at its id, no two
/// different values are ever chosen.
pub proof fn lemma_agreement(
    votes: Set<Vote>,
    proposals: Map<ProposalId, usize>,
    n: nat,
    v1: usize,
    v2: usize,
)
    requires
        votes_consistent(votes, proposals, n),
        chosen(votes, n, v1),
        chosen(votes, n, v2),
    ensures
        v1 == v2,
{
    let b1 = choose|id: ProposalId| chosen_at(votes, n, id, v1);
    let b2 = choose|id: ProposalId| chosen_at(votes, n, id, v2);
    lemma_id_order_strict_total(b1, b2, b1);
    if b1 == b2 {
        let q1 = choose|q: Set<int>|
            is_quorum(q, n) && forall|a: int|
                #[trigger] q.contains(a) ==> votes.contains(
                    Vote { acceptor: a, id: b1, value: v1 },
                );
        let q2 = choose|q: Set<int>|
            is_quorum(q, n) && forall|a: int|
                #[trigger] q.contains(a) ==> votes.contains(
                    Vote { acceptor: a, id: b2, value: v2 },
                );
        lemma_quorums_intersect(q1, q2, n);
        let a = choose|i: int| q1.contains(i) && q2.contains(i);
        assert(votes.contains(Vote { acceptor: a, id: b1, value: v1 }));
        assert(votes.contains(Vote { acceptor: a, id: b2, value: v2 }));
    } else if id_lt(b1, b2) {
        lemma_chosen_lower_then_higher(votes, proposals, n, b1, v1, b2, v2);
    } else {
        lemma_chosen_lower_then_higher(votes, proposals, n, b2, v2, b1, v1);
    }
}

/// Raising promises, and adding only votes at or above the voter's earlier
/// promise, keeps a value safe.
proof fn lemma_safe_in_preserved(s: Ballots, t: Ballots, n: nat, id: ProposalId, value: usize)
    requires
        safe_in(s, n, id, value),
        forall|a: int| id_le(promise_of(s, a), #[trigger] promise_of(t, a)),
        forall|v: Vote| #[trigger]
            t.votes.contains(v) ==> s.votes.contains(v) || !id_lt(
                v.id,
                promise_of(s, v.acceptor),
            ),
    ensures
        safe_in(t, n, id, value),
{
    assert forall|c: ProposalId| id_lt(c, id) implies exists|q: Set<int>|
        is_quorum(q, n) && forall|a: int|
            #[trigger] q.contains(a) ==> id_lt(c, promise_of(t, a)) && forall|w: usize|
                w != value ==> !#[trigger] t.votes.contains(
                    Vote { acceptor: a, id: c, value: w },
                ) by {
        let q = choose|q: Set<int>|
            is_quorum(q, n) && forall|a: int|
                #[trigger] q.contains(a) ==> id_lt(c, promise_of(s, a)) && forall|w: usize|
                    w != value ==> !#[trigger] s.votes.contains(
                        Vote { acceptor: a, id: c, value: w },
                    );
        assert forall|a: int| #[trigger] q.contains(a) implies id_lt(c, promise_of(t, a))
            && forall|w: usize|
            w != value ==> !#[trigger] t.votes.contains(Vote { acceptor: a, id: c, value: w }) by {
            assert(id_le(promise_of(s, a), promise_of(t, a)));
            assert forall|w: usize| w != value implies !#[trigger] t.votes.contains(
                Vote { acceptor: a, id: c, value: w },
            ) by {
                let v = Vote { acceptor: a, id: c, value: w };
                if t.votes.contains(v) {
                    assert(s.votes.contains(v) || !id_lt(v.id, promise_of(s, v.acceptor)));
                }
            }
        }
    }
}

/// A value that a proposer may carry into Phase 2 after a quorum's promises is safe.
proof fn lemma_adoptable_is_safe(s: Ballots, n: nat, id: ProposalId, value: usize, q: Set<int>)
    requires
        ballots_inv(s, n),
        is_quorum(q, n),
        forall|a: int| #[trigger] q.contains(a) ==> id_le(id, promise_of(s, a)),
        adoptable(s, q, id, value),
    ensures
        safe_in(s, n, id, value),
{
    assert forall|c: ProposalId| id_lt(c, id) implies exists|q2: Set<int>|
        is_quorum(q2, n) && forall|a: int|
            #[trigger] q2.contains(a) ==> id_lt(c, promise_of(s, a)) && forall|w: usize|
                w != value ==> !#[trigger] s.votes.contains(
                    Vote { acceptor: a, id: c, value: w },
                ) by {
        assert forall|a: int| #[trigger] q.contains(a) implies id_lt(c, promise_of(s, a)) by {
            assert(id_le(id, promise_of(s, a)));
        }
        if exists|a0: int, k: ProposalId|
            q.contains(a0) && id_lt(k, id) && s.votes.contains(
                Vote { acceptor: a0, id: k, value },
            ) && forall|a: int, c2: ProposalId, w: usize|
                q.contains(a) && id_lt(c2, id) && #[trigger] s.votes.contains(
                    Vote { acceptor: a, id: c2, value: w },
                ) ==> id_le(c2, k) {
            let (a0, k) = choose|a0: int, k: ProposalId|
                q.contains(a0) && id_lt(k, id) && s.votes.contains(
                    Vote { acceptor: a0, id: k, value },
                ) && forall|a: int, c2: ProposalId, w: usize|
                    q.contains(a) && id_lt(c2, id) && #[trigger] s.votes.contains(
                        Vote { acceptor: a, id: c2, value: w },
                    ) ==> id_le(c2, k);
            let va0 = Vote { acceptor: a0, id: k, value };
            assert(s.votes.contains(va0));
            assert(s.proposals.contains_key(k) && s.proposals[k] == value);
            if id_lt(c, k) {
                assert(safe_in(s, n, k, s.proposals[k]));
                assert(id_lt(c, k));
            } else if c == k {
                assert forall|a: int| #[trigger] q.contains(a) implies forall|w: usize|
                    w != value ==> !#[trigger] s.votes.contains(
                        Vote { acceptor: a, id: c, value: w },
                    ) by {
                    assert forall|w: usize| w != value implies !#[trigger] s.votes.contains(
                        Vote { acceptor: a, id: c, value: w },
                    ) by {
                        let v = Vote { acceptor: a, id: c, value: w };
                        if s.votes.contains(v) {
                            assert(s.proposals[v.id] == v.value);
                        }
                    }
                }
            } else {
                assert forall|a: int| #[trigger] q.contains(a) implies forall|w: usize|
                    w != value ==> !#[trigger] s.votes.contains(
                        Vote { acceptor: a, id: c, value: w },
                    ) by {
                    assert forall|w: usize| w != value implies !#[trigger] s.votes.contains(
                        Vote { acceptor: a, id: c, value: w },
                    ) by {
                        if s.votes.contains(Vote { acceptor: a, id: c, value: w }) {
                            assert(id_le(c, k));
                        }
                    }
                }
            }
        } else {
            assert forall|a: int| #[trigger] q.contains(a) implies forall|w: usize|
                w != value ==> !#[trigger] s.votes.contains(
                    Vote { acceptor: a, id: c, value: w },
                ) by {
                assert forall|w: usize| w != value implies !#[trigger] s.votes.contains(
                    Vote { acceptor: a, id: c, value: w },
                ) by {
                    assert(q.contains(a) && id_lt(c, id));
                }
            }
        }
    }
}

/// Every enabled event keeps the invariant.
proof fn lemma_next_keeps_inv(s: Ballots, n: nat, e: Event)
    requires
        ballots_inv(s, n),
        enabled(s, n, e),
    ensures
        ballots_inv(next(s, e), n),
{
    let t = next(s, e);
    assert forall|a: int| id_le(promise_of(s, a), #[trigger] promise_of(t, a)) by {}
    assert forall|v: Vote| #[trigger]
        t.votes.contains(v) implies s.votes.contains(v) || !id_lt(
            v.id,
            promise_of(s, v.acceptor),
        ) by {}
    assert forall|v: Vote| #[trigger]
        t.votes.contains(v) implies id_le(v.id, promise_of(t, v.acceptor)) by {
        if s.votes.contains(v) {
            assert(id_le(v.id, promise_of(s, v.acceptor)));
            assert(id_le(promise_of(s, v.acceptor), promise_of(t, v.acceptor)));
        }
    }
    assert forall|v: Vote| #[trigger]
        t.votes.contains(v) implies t.proposals.contains_key(v.id) && t.proposals[v.id]
        == v.value by {
        if s.votes.contains(v) {
            assert(s.proposals.contains_key(v.id));
        }
    }
    assert forall|id: ProposalId| #[trigger]
        t.proposals.contains_key(id) implies safe_in(t, n, id, t.proposals[id]) by {
        if s.proposals.contains_key(id) && t.proposals[id] == s.proposals[id] {
            lemma_safe_in_preserved(s, t, n, id, s.proposals[id]);
        } else {
            match e {
                Event::Propose { id: b, value, quorum } => {
                    assert(id == b);
                    lemma_adoptable_is_safe(s, n, b, value, quorum);
                    lemma_safe_in_preserved(s, t, n, b, value);
                },
                _ => {},
            }
        }
    }
}

/// Every run from the initial state keeps the invariant.
proof fn lemma_run_keeps_inv(s: Ballots, n: nat, es: Seq<Event>)
    requires
        ballots_inv(s, n),
    ensures
        ballots_inv(run_events(s, n, es), n),
    decreases es.len(),
{
    if es.len() > 0 {
        let t = if enabled(s, n, es[0]) {
            lemma_next_keeps_inv(s, n, es[0]);
            next(s, es[0])
        } else {
            s
        };
        lemma_run_keeps_inv(t, n, es.drop_first());
    }
}

/// Safety: in every run of any number of proposers and acceptors, however
/// their events interleave, at most one value is ever chosen.
pub proof fn lemma_paxos_safety(n: nat, es: Seq<Event>, v1: usize, v2: usize)
    requires
        chosen(run_events(initial_ballots(), n, es).votes, n, v1),
        chosen(run_events(initial_ballots(), n, es).votes, n, v2),
    ensures
        v1 == v2,
{
    let s = run_events(initial_ballots(), n, es);
    lemma_run_keeps_inv(initial_ballots(), n, es);
    assert forall|id: ProposalId| #[trigger]
        s.proposals.contains_key(id) implies safe_at(s.votes, n, id, s.proposals[id]) by {
        assert(safe_in(s, n, id, s.proposals[id]));
        assert forall|c: ProposalId| id_lt(c, id) implies exists|q: Set<int>|
            is_quorum(q, n) && forall|a: int, w: usize|
                q.contains(a) && w != s.proposals[id] ==> !#[trigger] s.votes.contains(
                    Vote { acceptor: a, id: c, value: w },
                ) by {
            let q = choose|q: Set<int>|
                is_quorum(q, n) && forall|a: int|
                    #[trigger] q.contains(a) ==> id_lt(c, promise_of(s, a)) && forall|w: usize|
                        w != s.proposals[id] ==> !#[trigger] s.votes.contains(
                            Vote { acceptor: a, id: c, value: w },
                        );
            assert forall|a: int, w: usize|
                q.contains(a) && w != s.proposals[id] implies !#[trigger] s.votes.contains(
                Vote { acceptor: a, id: c, value: w },
            ) by {
                assert(q.contains(a));
            }
        }
    }
    lemma_agreement(s.votes, s.proposals, n, v1, v2);
}

/// Reply `r` to `Prepare(id)` reports its acceptor's highest vote below `id`,
/// or no value if that acceptor has voted below `id` under no id.
pub open spec fn reports_highest_vote(s: Ballots, r: PrepareResponse, id: ProposalId) -> bool {
    match r.accepted_value {
        None => forall|c: ProposalId, w: usize|
            id_lt(c, id) ==> !#[trigger] s.votes.contains(
                Vote { acceptor: r.id as int, id: c, value: w },
            ),
        Some(v) => {
            &&& id_lt(r.accepted_proposal, id)
            &&& s.votes.contains(Vote { acceptor: r.id as int, id: r.accepted_proposal, value: v })
            &&& forall|c: ProposalId, w: usize|
                id_lt(c, id) && #[trigger] s.votes.contains(
                    Vote { acceptor: r.id as int, id: c, value: w },
                ) ==> id_le(c, r.accepted_proposal)
        },
    }
}

/// The acceptors that sent the replies `rs`.
pub open spec fn repliers(rs: Seq<PrepareResponse>) -> Set<int> {
    Set::new(|a: int| exists|j: int| 0 <= j < rs.len() && rs[j].id as int == a)
}

/// The value a proposer carries into Phase 2 is one the model allows: when
/// every promise reports its acceptor's highest vote below the round's id,
/// `value_to_propose` picks the value of the highest vote among them, or the
/// candidate if there is none.
pub proof fn lemma_value_to_propose_adoptable(
    s: Ballots,
    id: ProposalId,
    rs: Seq<PrepareResponse>,
    candidate: usize,
)
    requires
        forall|j: int| 0 <= j < rs.len() ==> reports_highest_vote(s, #[trigger] rs[j], id),
    ensures
        adoptable(s, repliers(rs), id, value_to_propose(rs, candidate)),
{
    let q = repliers(rs);
    lemma_best_of_is_highest(rs);
    if best_of(rs) is None {
        assert forall|a: int, c: ProposalId, w: usize|
            q.contains(a) && id_lt(c, id) implies !#[trigger] s.votes.contains(
            Vote { acceptor: a, id: c, value: w },
        ) by {
            let j = choose|j: int| 0 <= j < rs.len() && rs[j].id as int == a;
            assert(reports_highest_vote(s, rs[j], id));
            assert(rs[j].accepted_value is None);
        }
    } else {
        let b = best_of(rs)->0;
        let j0 = choose|j: int|
            0 <= j < rs.len() && rs[j].accepted_value == Some(b.1) && rs[j].accepted_proposal
                == b.0;
        assert(reports_highest_vote(s, rs[j0], id));
        let a0 = rs[j0].id as int;
        assert(q.contains(a0));
        assert forall|a: int, c: ProposalId, w: usize|
            q.contains(a) && id_lt(c, id) && #[trigger] s.votes.contains(
                Vote { acceptor: a, id: c, value: w },
            ) implies id_le(c, b.0) by {
            let j = choose|j: int| 0 <= j < rs.len() && rs[j].id as int == a;
            assert(reports_highest_vote(s, rs[j], id));
            assert(rs[j].accepted_value is Some);
            assert(id_le(rs[j].accepted_proposal, b.0));
        }
        assert(s.votes.contains(Vote { acceptor: a0, id: b.0, value: b.1 }));
    }
}

/// The model's acceptor steps are the acceptor's handlers: from a state whose
/// promise is acceptor `a`'s promise in `s`, `Prepare(id)` leaves the promise
/// the model records, and `Propose(id, v)` is accepted exactly when the model
/// records a new vote, with the same new promise.
pub proof fn lemma_model_follows_acceptor(
    s: Ballots,
    av: AcceptorView,
    a: int,
    id: ProposalId,
    value: usize,
)
    requires
        av.min_proposal == promise_of(s, a),
        s.proposals.contains_key(id),
        s.proposals[id] == value,
    ensures
        prepare_state(av, id).min_proposal == promise_of(
            next(s, Event::Promise { acceptor: a, id }),
            a,
        ),
        !s.votes.contains(Vote { acceptor: a, id, value }) ==> (accept_reply(
            av,
            id,
            value,
        ).accepted <==> next(s, Event::Accept { acceptor: a, id }).votes.contains(
            Vote { acceptor: a, id, value },
        )),
        accept_reply(av, id, value).accepted ==> accept_state(av, id, value).min_proposal
            == promise_of(next(s, Event::Accept { acceptor: a, id }), a),
{
}

} // verus!
