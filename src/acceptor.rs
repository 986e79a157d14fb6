//! The acceptor: a passive voting state machine holding one participant's
//! consensus state.
use vstd::prelude::*;

use crate::proposal_id::{id_le, id_lt, lowest_id, ProposalId};

verus! {

/// Phase 1 request: asks for a promise not to accept anything below `id`.
#[derive(Clone, Copy, Debug, PartialEq, Eq, Structural)]
pub struct Prepare {
    pub id: ProposalId,
}

/// Reply to [`Prepare`]. `id` names the replying acceptor. When `promised`
/// is false the accepted fields carry nothing (the lowest id and `None`).
#[derive(Clone, Copy, Debug, PartialEq, Eq, Structural)]
pub struct PrepareResponse {
    pub id: usize,
    pub promised: bool,
    pub accepted_proposal: ProposalId,
    pub accepted_value: Option<usize>,
}

/// Phase 2 request: asks the acceptor to accept `value` under `id`.
#[derive(Clone, Copy, Debug, PartialEq, Eq, Structural)]
pub struct Propose {
    pub id: ProposalId,
    pub value: usize,
}

/// Reply to [`Propose`]. `id` names the replying acceptor; `min_proposal` is
/// its promise after handling the request.
#[derive(Clone, Copy, Debug, PartialEq, Eq, Structural)]
pub struct ProposeResponse {
    pub id: usize,
    pub accepted: bool,
    pub min_proposal: ProposalId,
}

/// The mathematical state of an acceptor.
pub struct AcceptorView {
    pub id: usize,
    pub min_proposal: ProposalId,
    pub accepted_proposal: ProposalId,
    pub accepted_value: Option<usize>,
}

/// The acceptor never records a value above its promise.
pub open spec fn acceptor_inv(s: AcceptorView) -> bool {
    id_le(s.accepted_proposal, s.min_proposal)
}

/// State after handling `Prepare(id)`: the promise rises iff `id` exceeds it.
pub open spec fn prepare_state(s: AcceptorView, id: ProposalId) -> AcceptorView {
    if id_lt(s.min_proposal, id) {
        AcceptorView { min_proposal: id, ..s }
    } else {
        s
    }
}

/// Reply to `Prepare(id)`: a promise carrying the accepted pair, or a bare refusal.
pub open spec fn prepare_reply(s: AcceptorView, id: ProposalId) -> PrepareResponse {
    if id_lt(s.min_proposal, id) {
        PrepareResponse {
            id: s.id,
            promised: true,
            accepted_proposal: s.accepted_proposal,
            accepted_value: s.accepted_value,
        }
    } else {
        PrepareResponse {
            id: s.id,
            promised: false,
            accepted_proposal: lowest_id(),
            accepted_value: None,
        }
    }
}

/// State after handling `Propose(id, value)`: accepted iff `id` is at least the promise.
pub open spec fn accept_state(s: AcceptorView, id: ProposalId, value: usize) -> AcceptorView {
    if id_le(s.min_proposal, id) {
        AcceptorView {
            id: s.id,
            min_proposal: id,
            accepted_proposal: id,
            accepted_value: Some(value),
        }
    } else {
        s
    }
}

/// Reply to `Propose(id, value)`.
pub open spec fn accept_reply(s: AcceptorView, id: ProposalId, value: usize) -> ProposeResponse {
    ProposeResponse {
        id: s.id,
        accepted: id_le(s.min_proposal, id),
        min_proposal: accept_state(s, id, value).min_proposal,
    }
}

/// A request as the acceptor receives it.
pub enum AcceptorRequest {
    Prepare(ProposalId),
    Accept(ProposalId, usize),
}

/// State after handling `req`.
pub open spec fn step(s: AcceptorView, req: AcceptorRequest) -> AcceptorView {
    match req {
        AcceptorRequest::Prepare(id) => prepare_state(s, id),
        AcceptorRequest::Accept(id, value) => accept_state(s, id, value),
    }
}

/// State after handling `reqs` in order.
pub open spec fn run(s: AcceptorView, reqs: Seq<AcceptorRequest>) -> AcceptorView
    decreases reqs.len(),
{
    if reqs.len() == 0 {
        s
    } else {
        run(step(s, reqs[0]), reqs.drop_first())
    }
}

/// One participant's voting state. Its fields change only through
/// [`Acceptor::handle_prepare`] and [`Acceptor::handle_propose`].
pub struct Acceptor {
    id: usize,
    min_proposal: ProposalId,
    accepted_proposal: ProposalId,
    accepted_value: Option<usize>,
}

impl View for Acceptor {
    type V = AcceptorView;

    closed spec fn view(&self) -> AcceptorView {
        AcceptorView {
            id: self.id,
            min_proposal: self.min_proposal,
            accepted_proposal: self.accepted_proposal,
            accepted_value: self.accepted_value,
        }
    }
}

impl Acceptor {
    #[verifier::type_invariant]
    spec fn inv(&self) -> bool {
        acceptor_inv(self@)
    }

    /// A fresh acceptor: nothing promised, nothing accepted.
    pub fn new(id: usize) -> (r: Acceptor)
        ensures
            r@.id == id,
            r@.min_proposal == lowest_id(),
            r@.accepted_proposal == lowest_id(),
            r@.accepted_value.is_none(),
            acceptor_inv(r@),
    {
        Acceptor {
            id,
            min_proposal: ProposalId::default(),
            accepted_proposal: ProposalId::default(),
            accepted_value: None,
        }
    }

    pub fn id(&self) -> (r: usize)
        ensures
            r == self@.id,
    {
        self.id
    }

    pub fn min_proposal(&self) -> (r: ProposalId)
        ensures
            r == self@.min_proposal,
    {
        self.min_proposal
    }

    pub fn accepted_proposal(&self) -> (r: ProposalId)
        ensures
            r == self@.accepted_proposal,
    {
        self.accepted_proposal
    }

    pub fn accepted_value(&self) -> (r: Option<usize>)
        ensures
            r == self@.accepted_value,
    {
        self.accepted_value
    }

    /// Phase 1: promise `msg.id` iff it exceeds the current promise.
    pub fn handle_prepare(&mut self, msg: &Prepare) -> (r: PrepareResponse)
        ensures
            final(self)@ == prepare_state(old(self)@, msg.id),
            r == prepare_reply(old(self)@, msg.id),
            acceptor_inv(final(self)@),
    {
        proof {
            use_type_invariant(&*self);
        }
        if msg.id.exceeds(&self.min_proposal) {
            self.min_proposal = msg.id;
            PrepareResponse {
                id: self.id,
                promised: true,
                accepted_proposal: self.accepted_proposal,
                accepted_value: self.accepted_value,
            }
        } else {
            PrepareResponse {
                id: self.id,
                promised: false,
                accepted_proposal: ProposalId::default(),
                accepted_value: None,
            }
        }
    }

    /// Phase 2: accept `msg.value` under `msg.id` iff `msg.id` is at least
    /// the current promise; otherwise leave the state unchanged.
    pub fn handle_propose(&mut self, msg: &Propose) -> (r: ProposeResponse)
        ensures
            final(self)@ == accept_state(old(self)@, msg.id, msg.value),
            r == accept_reply(old(self)@, msg.id, msg.value),
            r.accepted == id_le(old(self)@.min_proposal, msg.id),
            r.accepted ==> final(self)@.accepted_proposal == msg.id
                && final(self)@.accepted_value == Some(msg.value),
            acceptor_inv(final(self)@),
    {
        proof {
            use_type_invariant(&*self);
        }
        let accepted = msg.id.at_least(&self.min_proposal);
        if accepted {
            self.min_proposal = msg.id;
            self.accepted_proposal = msg.id;
            self.accepted_value = Some(msg.value);
        }
        ProposeResponse { id: self.id, accepted, min_proposal: self.min_proposal }
    }
}

/// Every request keeps the invariant and never lowers the promise.
pub proof fn lemma_step_monotonic(s: AcceptorView, req: AcceptorRequest)
    requires
        acceptor_inv(s),
    ensures
        acceptor_inv(step(s, req)),
        id_le(s.min_proposal, step(s, req).min_proposal),
{
}

/// Any sequence of requests keeps the invariant and never lowers the promise.
pub proof fn lemma_run_monotonic(s: AcceptorView, reqs: Seq<AcceptorRequest>)
    requires
        acceptor_inv(s),
    ensures
        acceptor_inv(run(s, reqs)),
        id_le(s.min_proposal, run(s, reqs).min_proposal),
    decreases reqs.len(),
{
    if reqs.len() > 0 {
        let t = step(s, reqs[0]);
        lemma_step_monotonic(s, reqs[0]);
        lemma_run_monotonic(t, reqs.drop_first());
    }
}

/// Replaying a `Prepare` changes nothing the second time: the state is the
/// one the first delivery left, and the replay is refused.
pub proof fn lemma_prepare_replay(s: AcceptorView, id: ProposalId)
    ensures
        prepare_state(prepare_state(s, id), id) == prepare_state(s, id),
        !prepare_reply(prepare_state(s, id), id).promised,
{
}

/// Once `Prepare(id)` is promised, every later `Prepare(id2)` with
/// `id2 <= id` is refused, whatever requests came in between.
pub proof fn lemma_promise_monotonic(
    s: AcceptorView,
    id: ProposalId,
    between: Seq<AcceptorRequest>,
    id2: ProposalId,
)
    requires
        acceptor_inv(s),
        prepare_reply(s, id).promised,
        id_le(id2, id),
    ensures
        !prepare_reply(run(prepare_state(s, id), between), id2).promised,
{
    lemma_run_monotonic(prepare_state(s, id), between);
}

/// `Propose(id, v)` succeeds iff `id` is at least the promise at that moment,
/// and on success records `(id, v)`.
pub proof fn lemma_accept_contract(s: AcceptorView, id: ProposalId, value: usize)
    ensures
        accept_reply(s, id, value).accepted <==> id_le(s.min_proposal, id),
        accept_reply(s, id, value).accepted ==> accept_state(s, id, value).accepted_proposal == id
            && accept_state(s, id, value).accepted_value == Some(value),
        !accept_reply(s, id, value).accepted ==> accept_state(s, id, value) == s,
{
}

} // verus!
