//! The proposer: drives the two Paxos phases across a fixed set of acceptors.
//!
//! The proposer is a pure state machine. Each event (a caller's request, or an
//! acceptor's reply tagged with the id of the request it answers) moves it to
//! a new state and yields one [`Action`] for the runtime to perform: broadcast
//! a request to every acceptor, report the chosen value, or wait.
use vstd::prelude::*;

use crate::acceptor::{Prepare, PrepareResponse, Propose, ProposeResponse};
use crate::proposal_id::{id_le, id_lt, ProposalId};
use crate::quorum::{quorum_of, quorum_size};

verus! {

/// A caller asks the proposer to get `value` chosen.
#[derive(Clone, Copy, Debug, PartialEq, Eq, Structural)]
pub struct ProposeRequest {
    pub value: usize,
}

/// Where the proposer stands in its current attempt.
#[derive(Clone, Copy, Debug, PartialEq, Eq, Structural)]
pub enum Phase {
    /// No attempt under way.
    Idle,
    /// Phase 1: collecting promises for the current proposal id.
    Preparing,
    /// Phase 2: collecting acceptances for the current proposal id.
    Accepting,
    /// A quorum accepted the current value.
    Chosen,
}

/// What the runtime must do after an event.
#[derive(Clone, Copy, Debug, PartialEq, Eq, Structural)]
pub enum Action {
    /// Nothing to send; keep delivering replies.
    Wait,
    /// Send this request to every acceptor.
    BroadcastPrepare(Prepare),
    /// Send this request to every acceptor.
    BroadcastPropose(Propose),
    /// This value has been chosen.
    Chosen(usize),
}

/// The highest accepted `(proposal, value)` pair after also seeing `r`.
pub open spec fn better(best: Option<(ProposalId, usize)>, r: PrepareResponse) -> Option<
    (ProposalId, usize),
> {
    match r.accepted_value {
        Some(v) => match best {
            Some(b) => if id_lt(b.0, r.accepted_proposal) {
                Some((r.accepted_proposal, v))
            } else {
                best
            },
            None => Some((r.accepted_proposal, v)),
        },
        None => best,
    }
}

/// The accepted pair with the highest proposal among `rs` (the earliest
/// such reply on a tie), or `None` if no reply carries an accepted value.
pub open spec fn best_of(rs: Seq<PrepareResponse>) -> Option<(ProposalId, usize)>
    decreases rs.len(),
{
    if rs.len() == 0 {
        None
    } else {
        better(best_of(rs.drop_last()), rs.last())
    }
}

/// The value Phase 2 must carry after the promises `rs`: the value of the
/// highest accepted proposal among them, else the proposer's own candidate.
pub open spec fn value_to_propose(rs: Seq<PrepareResponse>, candidate: usize) -> usize {
    match best_of(rs) {
        Some(b) => b.1,
        None => candidate,
    }
}

/// The mathematical state of a proposer.
pub struct ProposerView {
    pub id: usize,
    pub n_acceptors: usize,
    pub local_timestamp: usize,
    pub candidate_value: usize,
    pub phase: Phase,
    /// The id of the current round.
    pub proposal: ProposalId,
    /// The value sent in Phase 2 of the current round.
    pub value: usize,
    /// The distinct acceptors counted so far in the current phase.
    pub voters: Seq<usize>,
    /// The promises counted in Phase 1 of the current round.
    pub promises: Seq<PrepareResponse>,
}

/// The id of a round this proposer begins at its current timestamp.
pub open spec fn round_id(s: ProposerView) -> ProposalId {
    ProposalId { timestamp: s.local_timestamp, server_id: s.id }
}

/// Counted voters are distinct known acceptors, the round's id is built from
/// the proposer's timestamp and identifier, the promises are the counted
/// replies, and Phase 2 carries the value those promises dictate.
pub open spec fn proposer_inv(s: ProposerView) -> bool {
    &&& s.voters.no_duplicates()
    &&& forall|i: int| 0 <= i < s.voters.len() ==> s.voters[i] < s.n_acceptors
    &&& s.phase != Phase::Idle ==> s.proposal == round_id(s)
    &&& s.phase == Phase::Preparing ==> {
        &&& s.voters.len() == s.promises.len()
        &&& forall|j: int|
            0 <= j < s.promises.len() ==> #[trigger] s.promises[j].promised && s.promises[j].id
                == s.voters[j]
    }
    &&& (s.phase == Phase::Accepting || s.phase == Phase::Chosen) ==> s.value == value_to_propose(
        s.promises,
        s.candidate_value,
    )
}

/// `rsp`, answering `sent`, is a promise that counts towards the current Phase 1.
pub open spec fn counts_promise(s: ProposerView, sent: ProposalId, rsp: PrepareResponse) -> bool {
    &&& s.phase == Phase::Preparing
    &&& sent == s.proposal
    &&& rsp.promised
    &&& rsp.id < s.n_acceptors
    &&& !s.voters.contains(rsp.id)
}

/// `rsp`, answering `sent`, reports that the current Phase 2 was preempted.
pub open spec fn is_preemption(s: ProposerView, sent: ProposalId, rsp: ProposeResponse) -> bool {
    &&& s.phase == Phase::Accepting
    &&& sent == s.proposal
    &&& !rsp.accepted
    &&& id_lt(s.proposal, rsp.min_proposal)
}

/// `rsp`, answering `sent`, is an acceptance that counts towards the current Phase 2.
pub open spec fn counts_acceptance(s: ProposerView, sent: ProposalId, rsp: ProposeResponse) -> bool {
    &&& s.phase == Phase::Accepting
    &&& sent == s.proposal
    &&& rsp.accepted
    &&& rsp.id < s.n_acceptors
    &&& !s.voters.contains(rsp.id)
}

/// The state right after a round begins at `timestamp` for `candidate`.
pub open spec fn begins_round(
    s: ProposerView,
    t: ProposerView,
    timestamp: usize,
    candidate: usize,
) -> bool {
    &&& t.id == s.id
    &&& t.n_acceptors == s.n_acceptors
    &&& t.local_timestamp == timestamp
    &&& t.candidate_value == candidate
    &&& t.phase == Phase::Preparing
    &&& t.proposal == ProposalId { timestamp, server_id: s.id }
    &&& t.voters.len() == 0
    &&& t.promises.len() == 0
}

/// What `best_of` picks: `None` exactly when no reply carries a value;
/// otherwise the pair of some reply, whose proposal is at least that of every
/// reply carrying a value.
pub proof fn lemma_best_of_is_highest(rs: Seq<PrepareResponse>)
    ensures
        best_of(rs) is None <==> forall|j: int| 0 <= j < rs.len() ==> rs[j].accepted_value is None,
        best_of(rs) is Some ==> exists|j: int|
            0 <= j < rs.len() && rs[j].accepted_value == Some((best_of(rs)->0).1)
                && rs[j].accepted_proposal == (best_of(rs)->0).0,
        best_of(rs) is Some ==> forall|j: int|
            0 <= j < rs.len() && rs[j].accepted_value is Some ==> id_le(
                #[trigger] rs[j].accepted_proposal,
                (best_of(rs)->0).0,
            ),
    decreases rs.len(),
{
    if rs.len() > 0 {
        let init = rs.drop_last();
        lemma_best_of_is_highest(init);
        assert forall|j: int| 0 <= j < init.len() implies #[trigger] init[j] == rs[j] by {}
        if best_of(rs) is Some {
            let b = best_of(rs)->0;
            if best_of(init) is Some && b == best_of(init)->0 {
                let j = choose|j: int|
                    0 <= j < init.len() && init[j].accepted_value == Some(b.1)
                        && init[j].accepted_proposal == b.0;
                assert(rs[j] == init[j]);
            } else {
                assert(rs[rs.len() - 1] == rs.last());
            }
            assert forall|j: int|
                0 <= j < rs.len() && rs[j].accepted_value is Some implies id_le(
                #[trigger] rs[j].accepted_proposal,
                b.0,
            ) by {
                if j < init.len() {
                    assert(init[j] == rs[j]);
                }
            }
        } else {
            assert forall|j: int| 0 <= j < rs.len() implies rs[j].accepted_value is None by {
                if j < init.len() {
                    assert(init[j] == rs[j]);
                }
            }
        }
    }
}

/// Value adoption: when, among the promises of a Phase 1 quorum, reply `k`
/// carries the numerically highest accepted proposal `P` with value `V`,
/// Phase 2 carries `V`, whatever the proposer's own candidate.
pub proof fn lemma_value_adoption(rs: Seq<PrepareResponse>, candidate: usize, k: int, v: usize)
    requires
        0 <= k < rs.len(),
        rs[k].accepted_value == Some(v),
        forall|j: int|
            0 <= j < rs.len() && j != k && rs[j].accepted_value is Some ==> id_lt(
                #[trigger] rs[j].accepted_proposal,
                rs[k].accepted_proposal,
            ),
    ensures
        value_to_propose(rs, candidate) == v,
{
    lemma_best_of_is_highest(rs);
    let b = best_of(rs)->0;
    let j = choose|j: int|
        0 <= j < rs.len() && rs[j].accepted_value == Some(b.1) && rs[j].accepted_proposal == b.0;
    assert(id_le(rs[k].accepted_proposal, b.0));
    if j != k {
        assert(id_lt(rs[j].accepted_proposal, rs[k].accepted_proposal));
    }
}

/// One proposing client.
pub struct Proposer {
    id: usize,
    n_acceptors: usize,
    local_timestamp: usize,
    candidate_value: usize,
    phase: Phase,
    proposal: ProposalId,
    value: usize,
    voters: Vec<usize>,
    best: Option<(ProposalId, usize)>,
    promises: Ghost<Seq<PrepareResponse>>,
}

impl View for Proposer {
    type V = ProposerView;

    closed spec fn view(&self) -> ProposerView {
        ProposerView {
            id: self.id,
            n_acceptors: self.n_acceptors,
            local_timestamp: self.local_timestamp,
            candidate_value: self.candidate_value,
            phase: self.phase,
            proposal: self.proposal,
            value: self.value,
            voters: self.voters@,
            promises: self.promises@,
        }
    }
}

/// Whether `x` occurs in `v`.
fn contains_voter(v: &Vec<usize>, x: usize) -> (r: bool)
    ensures
        r == v@.contains(x),
{
    let mut i: usize = 0;
    while i < v.len()
        invariant
            i <= v.len(),
            forall|j: int| 0 <= j < i ==> v@[j] != x,
        decreases v.len() - i,
    {
        if v[i] == x {
            return true;
        }
        i = i + 1;
    }
    false
}

impl Proposer {
    /// Well-formedness: [`Proposer::new`] establishes it and every event keeps it.
    pub closed spec fn wf(&self) -> bool {
        &&& proposer_inv(self@)
        &&& self.phase == Phase::Preparing ==> self.best == best_of(self.promises@)
    }

    /// A proposer with identifier `id` addressing `n_acceptors` acceptors.
    pub fn new(id: usize, n_acceptors: usize) -> (r: Proposer)
        ensures
            r.wf(),
            r@.id == id,
            r@.n_acceptors == n_acceptors,
            r@.local_timestamp == 0,
            r@.phase == Phase::Idle,
            r@.voters.len() == 0,
    {
        Proposer {
            id,
            n_acceptors,
            local_timestamp: 0,
            candidate_value: 0,
            phase: Phase::Idle,
            proposal: ProposalId::default(),
            value: 0,
            voters: Vec::new(),
            best: None,
            promises: Ghost(Seq::empty()),
        }
    }

    pub fn id(&self) -> (r: usize)
        ensures
            r == self@.id,
    {
        self.id
    }

    pub fn phase(&self) -> (r: Phase)
        ensures
            r == self@.phase,
    {
        self.phase
    }

    pub fn local_timestamp(&self) -> (r: usize)
        ensures
            r == self@.local_timestamp,
    {
        self.local_timestamp
    }

    pub fn proposal(&self) -> (r: ProposalId)
        ensures
            r == self@.proposal,
    {
        self.proposal
    }

    /// Starts Phase 1 of a round at `timestamp` for `candidate`.
    fn begin_round(&mut self, timestamp: usize, candidate: usize) -> (r: Action)
        ensures
            final(self).wf(),
            begins_round(old(self)@, final(self)@, timestamp, candidate),
            r == Action::BroadcastPrepare(Prepare { id: final(self)@.proposal }),
    {
        self.local_timestamp = timestamp;
        self.candidate_value = candidate;
        self.phase = Phase::Preparing;
        self.proposal = ProposalId::new(timestamp, self.id);
        self.voters = Vec::new();
        self.best = None;
        self.promises = Ghost(Seq::empty());
        Action::BroadcastPrepare(Prepare { id: self.proposal })
    }

    /// A caller's request: abandons any attempt under way and begins a round
    /// with the next timestamp and `req.value` as the candidate. If the
    /// timestamp cannot grow any further, the proposer goes idle and waits.
    pub fn handle_request(&mut self, req: ProposeRequest) -> (r: Action)
        requires
            old(self).wf(),
        ensures
            final(self).wf(),
            old(self)@.local_timestamp < usize::MAX ==> begins_round(
                old(self)@,
                final(self)@,
                (old(self)@.local_timestamp + 1) as usize,
                req.value,
            ) && r == Action::BroadcastPrepare(Prepare { id: final(self)@.proposal }),
            old(self)@.local_timestamp == usize::MAX ==> final(self)@ == (ProposerView {
                phase: Phase::Idle,
                ..old(self)@
            }) && r == Action::Wait,
    {
        if self.local_timestamp < usize::MAX {
            self.begin_round(self.local_timestamp + 1, req.value)
        } else {
            self.phase = Phase::Idle;
            Action::Wait
        }
    }

    /// A reply to the `Prepare` with id `sent`. A promise from an acceptor
    /// not yet counted in the current Phase 1 is counted; once a quorum has
    /// promised, Phase 2 begins with the value of the highest accepted
    /// proposal among the promises, or the candidate if none carries one.
    /// Anything else (a refusal, a stale or repeated reply) changes nothing.
    pub fn handle_prepare_response(&mut self, sent: ProposalId, rsp: &PrepareResponse) -> (r:
        Action)
        requires
            old(self).wf(),
        ensures
            final(self).wf(),
            !counts_promise(old(self)@, sent, *rsp) ==> final(self)@ == old(self)@ && r
                == Action::Wait,
            counts_promise(old(self)@, sent, *rsp) ==> {
                &&& final(self)@.promises == old(self)@.promises.push(*rsp)
                &&& final(self)@.id == old(self)@.id
                &&& final(self)@.n_acceptors == old(self)@.n_acceptors
                &&& final(self)@.local_timestamp == old(self)@.local_timestamp
                &&& final(self)@.candidate_value == old(self)@.candidate_value
                &&& final(self)@.proposal == old(self)@.proposal
                &&& if old(self)@.voters.len() + 1 >= quorum_of(old(self)@.n_acceptors as nat) {
                    &&& final(self)@.phase == Phase::Accepting
                    &&& final(self)@.voters.len() == 0
                    &&& final(self)@.value == value_to_propose(
                        final(self)@.promises,
                        old(self)@.candidate_value,
                    )
                    &&& r == Action::BroadcastPropose(
                        Propose { id: old(self)@.proposal, value: final(self)@.value },
                    )
                } else {
                    &&& final(self)@.phase == Phase::Preparing
                    &&& final(self)@.voters == old(self)@.voters.push(rsp.id)
                    &&& final(self)@.value == old(self)@.value
                    &&& r == Action::Wait
                }
            },
    {
        if self.phase != Phase::Preparing || sent != self.proposal || !rsp.promised || rsp.id
            >= self.n_acceptors || contains_voter(&self.voters, rsp.id) {
            return Action::Wait;
        }
        let ghost old_voters = self.voters@;
        self.voters.push(rsp.id);
        self.promises = Ghost(self.promises@.push(*rsp));
        if let Some(v) = rsp.accepted_value {
            match self.best {
                Some(b) => {
                    if rsp.accepted_proposal.exceeds(&b.0) {
                        self.best = Some((rsp.accepted_proposal, v));
                    }
                },
                None => {
                    self.best = Some((rsp.accepted_proposal, v));
                },
            }
        }
        proof {
            assert(self.promises@.drop_last() =~= old(self).promises@);
            assert(self.voters@.no_duplicates()) by {
                assert forall|i: int, j: int|
                    0 <= i < j < self.voters@.len() implies self.voters@[i]
                    != self.voters@[j] by {
                    if j == old_voters.len() {
                        assert(old_voters.contains(old_voters[i]));
                    }
                }
            }
        }
        if self.voters.len() >= quorum_size(self.n_acceptors) {
            self.value = match self.best {
                Some(b) => b.1,
                None => self.candidate_value,
            };
            self.phase = Phase::Accepting;
            self.voters = Vec::new();
            Action::BroadcastPropose(Propose { id: self.proposal, value: self.value })
        } else {
            Action::Wait
        }
    }

    /// A reply to the `Propose` with id `sent`. A refusal reporting a higher
    /// promise preempts the round: a new round begins with a timestamp just
    /// above the reported one, carrying this round's value as the candidate
    /// (or, if that timestamp cannot exist, the proposer goes idle). An
    /// acceptance from an acceptor not yet counted is counted; once a quorum
    /// has accepted, the value is chosen. Anything else changes nothing.
    pub fn handle_propose_response(&mut self, sent: ProposalId, rsp: &ProposeResponse) -> (r:
        Action)
        requires
            old(self).wf(),
        ensures
            final(self).wf(),
            is_preemption(old(self)@, sent, *rsp) && rsp.min_proposal.timestamp < usize::MAX
                ==> begins_round(
                old(self)@,
                final(self)@,
                (rsp.min_proposal.timestamp + 1) as usize,
                old(self)@.value,
            ) && r == Action::BroadcastPrepare(Prepare { id: final(self)@.proposal }) && id_lt(
                rsp.min_proposal,
                final(self)@.proposal,
            ) && old(self)@.local_timestamp < final(self)@.local_timestamp,
            is_preemption(old(self)@, sent, *rsp) && rsp.min_proposal.timestamp == usize::MAX
                ==> final(self)@ == (ProposerView { phase: Phase::Idle, ..old(self)@ }) && r
                == Action::Wait,
            counts_acceptance(old(self)@, sent, *rsp) ==> {
                &&& final(self)@.voters == old(self)@.voters.push(rsp.id)
                &&& if old(self)@.voters.len() + 1 >= quorum_of(old(self)@.n_acceptors as nat) {
                    &&& final(self)@ == (ProposerView {
                        phase: Phase::Chosen,
                        voters: old(self)@.voters.push(rsp.id),
                        ..old(self)@
                    })
                    &&& r == Action::Chosen(old(self)@.value)
                } else {
                    &&& final(self)@ == (ProposerView {
                        voters: old(self)@.voters.push(rsp.id),
                        ..old(self)@
                    })
                    &&& r == Action::Wait
                }
            },
            !is_preemption(old(self)@, sent, *rsp) && !counts_acceptance(old(self)@, sent, *rsp)
                ==> final(self)@ == old(self)@ && r == Action::Wait,
    {
        if self.phase != Phase::Accepting || sent != self.proposal {
            return Action::Wait;
        }
        if !rsp.accepted && rsp.min_proposal.exceeds(&self.proposal) {
            if rsp.min_proposal.timestamp < usize::MAX {
                let value = self.value;
                return self.begin_round(rsp.min_proposal.timestamp + 1, value);
            } else {
                self.phase = Phase::Idle;
                return Action::Wait;
            }
        }
        if !rsp.accepted || rsp.id >= self.n_acceptors || contains_voter(&self.voters, rsp.id) {
            return Action::Wait;
        }
        let ghost old_voters = self.voters@;
        self.voters.push(rsp.id);
        proof {
            assert(self.voters@.no_duplicates()) by {
                assert forall|i: int, j: int|
                    0 <= i < j < self.voters@.len() implies self.voters@[i]
                    != self.voters@[j] by {
                    if j == old_voters.len() {
                        assert(old_voters.contains(old_voters[i]));
                    }
                }
            }
        }
        if self.voters.len() >= quorum_size(self.n_acceptors) {
            self.phase = Phase::Chosen;
            Action::Chosen(self.value)
        } else {
            Action::Wait
        }
    }
}

} // verus!
