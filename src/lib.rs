//! Single-decree Paxos: proposal numbering, the acceptor's voting state
//! machine, quorum arithmetic, the proposer's two-phase driver as a pure
//! state machine from events to actions, and the proof that no run of the
//! protocol chooses two values.
use vstd::prelude::*;

pub mod acceptor;
pub mod proposal_id;
pub mod proposer;
pub mod quorum;
pub mod safety;

verus! {

} // verus!
