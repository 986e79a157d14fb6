use paxos_actor::acceptor::{Acceptor, Prepare, PrepareResponse, Propose, ProposeResponse};
use paxos_actor::proposal_id::ProposalId;
use paxos_actor::proposer::{Action, Phase, ProposeRequest, Proposer};
use paxos_actor::quorum::quorum_size;

fn pid(timestamp: usize, server_id: usize) -> ProposalId {
    ProposalId::new(timestamp, server_id)
}

fn acceptors(n: usize) -> Vec<Acceptor> {
    (0..n).map(Acceptor::new).collect()
}

/// Delivers `msg` to the acceptors listed in `order` and hands each reply to
/// the proposer, stopping at the first action other than `Wait`.
fn run_prepare(
    accs: &mut [Acceptor],
    p: &mut Proposer,
    msg: Prepare,
    order: &[usize],
) -> Action {
    for &i in order {
        let rsp = accs[i].handle_prepare(&msg);
        let action = p.handle_prepare_response(msg.id, &rsp);
        if action != Action::Wait {
            return action;
        }
    }
    Action::Wait
}

fn run_propose(
    accs: &mut [Acceptor],
    p: &mut Proposer,
    msg: Propose,
    order: &[usize],
) -> Action {
    for &i in order {
        let rsp = accs[i].handle_propose(&msg);
        let action = p.handle_propose_response(msg.id, &rsp);
        if action != Action::Wait {
            return action;
        }
    }
    Action::Wait
}

#[test]
fn it_works() {
    let mut accs = acceptors(5);
    let mut p0 = Proposer::new(0, 5);
    let mut p1 = Proposer::new(1, 5);
    let Action::BroadcastPrepare(m0) = p0.handle_request(ProposeRequest { value: 0 }) else {
        panic!("expected a prepare");
    };
    let Action::BroadcastPrepare(m1) = p1.handle_request(ProposeRequest { value: 1 }) else {
        panic!("expected a prepare");
    };
    let a0 = run_prepare(&mut accs, &mut p0, m0, &[0, 1, 2, 3, 4]);
    let a1 = run_prepare(&mut accs, &mut p1, m1, &[0, 1, 2, 3, 4]);
    let Action::BroadcastPropose(q1) = a1 else {
        panic!("expected a propose");
    };
    assert_eq!(run_propose(&mut accs, &mut p1, q1, &[0, 1, 2, 3, 4]), Action::Chosen(1));
    let Action::BroadcastPropose(q0) = a0 else {
        panic!("expected a propose");
    };
    // Proposer 0 is preempted and, retrying, must adopt the chosen value.
    let Action::BroadcastPrepare(m0) = run_propose(&mut accs, &mut p0, q0, &[0, 1, 2, 3, 4])
    else {
        panic!("expected a retry");
    };
    let Action::BroadcastPropose(q0) = run_prepare(&mut accs, &mut p0, m0, &[0, 1, 2, 3, 4])
    else {
        panic!("expected a propose");
    };
    assert_eq!(q0.value, 1);
    assert_eq!(run_propose(&mut accs, &mut p0, q0, &[0, 1, 2, 3, 4]), Action::Chosen(1));
}

#[test]
fn quorum_is_floor_half_plus_one() {
    assert_eq!(quorum_size(5), 3);
    assert_eq!(quorum_size(4), 3);
    assert_eq!(quorum_size(3), 2);
    assert_eq!(quorum_size(1), 1);
    assert_eq!(quorum_size(0), 1);
}

#[test]
fn two_quorums_of_five_share_an_acceptor() {
    let q = quorum_size(5);
    let a = [0usize, 1, 2];
    let b = [2usize, 3, 4];
    assert!(a.len() >= q && b.len() >= q);
    assert!(a.iter().any(|x| b.contains(x)));
}

#[test]
fn proposal_ids_are_totally_ordered() {
    let ids = [pid(1, 0), pid(1, 1), pid(2, 0), pid(0, 7)];
    for a in &ids {
        assert!(!a.exceeds(a));
        assert!(a.at_least(a));
        for b in &ids {
            if a != b {
                assert!(a.exceeds(b) != b.exceeds(a));
            }
        }
    }
    assert!(pid(2, 0).exceeds(&pid(1, 9)));
    assert!(pid(1, 1).exceeds(&pid(1, 0)));
    assert_eq!(ProposalId::default(), pid(0, 0));
}

#[test]
fn replayed_prepare_changes_nothing() {
    let mut a = Acceptor::new(0);
    let msg = Prepare { id: pid(3, 1) };
    let first = a.handle_prepare(&msg);
    assert!(first.promised);
    let second = a.handle_prepare(&msg);
    assert!(!second.promised);
    assert_eq!(a.min_proposal(), pid(3, 1));
    assert_eq!(a.accepted_proposal(), pid(0, 0));
    assert_eq!(a.accepted_value(), None);
}

#[test]
fn promise_refuses_lower_or_equal_ids() {
    let mut a = Acceptor::new(0);
    assert!(a.handle_prepare(&Prepare { id: pid(4, 2) }).promised);
    assert!(!a.handle_prepare(&Prepare { id: pid(4, 2) }).promised);
    assert!(!a.handle_prepare(&Prepare { id: pid(4, 1) }).promised);
    assert!(!a.handle_prepare(&Prepare { id: pid(3, 9) }).promised);
    assert!(a.handle_prepare(&Prepare { id: pid(4, 3) }).promised);
}

#[test]
fn accept_at_or_above_promise_succeeds() {
    let mut a = Acceptor::new(7);
    a.handle_prepare(&Prepare { id: pid(2, 1) });
    let low = a.handle_propose(&Propose { id: pid(2, 0), value: 5 });
    assert!(!low.accepted);
    assert_eq!(low.min_proposal, pid(2, 1));
    assert_eq!(low.id, 7);
    assert_eq!(a.accepted_value(), None);
    let equal = a.handle_propose(&Propose { id: pid(2, 1), value: 6 });
    assert!(equal.accepted);
    assert_eq!(a.accepted_proposal(), pid(2, 1));
    assert_eq!(a.accepted_value(), Some(6));
    let higher = a.handle_propose(&Propose { id: pid(3, 0), value: 8 });
    assert!(higher.accepted);
    assert_eq!(higher.min_proposal, pid(3, 0));
    assert_eq!(a.accepted_value(), Some(8));
}

#[test]
fn promise_reports_accepted_pair() {
    let mut a = Acceptor::new(2);
    a.handle_propose(&Propose { id: pid(1, 3), value: 99 });
    let rsp = a.handle_prepare(&Prepare { id: pid(2, 0) });
    assert_eq!(
        rsp,
        PrepareResponse {
            id: 2,
            promised: true,
            accepted_proposal: pid(1, 3),
            accepted_value: Some(99),
        }
    );
}

#[test]
fn phase_two_adopts_highest_accepted_value() {
    let mut p = Proposer::new(0, 3);
    let Action::BroadcastPrepare(m) = p.handle_request(ProposeRequest { value: 7 }) else {
        panic!("expected a prepare");
    };
    let r0 = PrepareResponse {
        id: 0,
        promised: true,
        accepted_proposal: pid(1, 2),
        accepted_value: Some(50),
    };
    let r1 = PrepareResponse {
        id: 1,
        promised: true,
        accepted_proposal: pid(1, 3),
        accepted_value: Some(99),
    };
    assert_eq!(p.handle_prepare_response(m.id, &r0), Action::Wait);
    assert_eq!(
        p.handle_prepare_response(m.id, &r1),
        Action::BroadcastPropose(Propose { id: pid(1, 0), value: 99 })
    );
}

#[test]
fn no_contention_chooses_own_value() {
    let mut accs = acceptors(5);
    let mut p = Proposer::new(0, 5);
    let m = Prepare { id: pid(1, 0) };
    assert_eq!(p.handle_request(ProposeRequest { value: 42 }), Action::BroadcastPrepare(m));
    let mut action = Action::Wait;
    for i in 0..5 {
        let rsp = accs[i].handle_prepare(&m);
        assert!(rsp.promised);
        assert_eq!(rsp.accepted_value, None);
        let a = p.handle_prepare_response(m.id, &rsp);
        if a != Action::Wait {
            action = a;
        }
    }
    let q = Propose { id: pid(1, 0), value: 42 };
    assert_eq!(action, Action::BroadcastPropose(q));
    let mut chosen = Action::Wait;
    for i in 0..5 {
        let rsp = accs[i].handle_propose(&q);
        assert!(rsp.accepted);
        let a = p.handle_propose_response(q.id, &rsp);
        if a != Action::Wait {
            chosen = a;
        }
    }
    assert_eq!(chosen, Action::Chosen(42));
    assert_eq!(p.phase(), Phase::Chosen);
}

#[test]
fn previously_accepted_value_is_adopted() {
    let mut accs = acceptors(5);
    assert!(accs[2].handle_propose(&Propose { id: pid(1, 3), value: 99 }).accepted);
    let mut p = Proposer::new(0, 5);
    let Action::BroadcastPrepare(m1) = p.handle_request(ProposeRequest { value: 7 }) else {
        panic!("expected a prepare");
    };
    let Action::BroadcastPropose(q1) = run_prepare(&mut accs, &mut p, m1, &[0, 1, 3]) else {
        panic!("expected a propose");
    };
    assert_eq!(q1.value, 7);
    // Acceptor 2 answers first and reports its higher promise.
    let retry = run_propose(&mut accs, &mut p, q1, &[2]);
    let m2 = Prepare { id: pid(2, 0) };
    assert_eq!(retry, Action::BroadcastPrepare(m2));
    let rsp = accs[2].handle_prepare(&m2);
    assert!(rsp.promised);
    assert_eq!(rsp.accepted_proposal, pid(1, 3));
    assert_eq!(rsp.accepted_value, Some(99));
    assert!(rsp.accepted_proposal.exceeds(&ProposalId::default()));
    assert_eq!(p.handle_prepare_response(m2.id, &rsp), Action::Wait);
    let Action::BroadcastPropose(q2) = run_prepare(&mut accs, &mut p, m2, &[0, 1]) else {
        panic!("expected a propose");
    };
    assert_eq!(q2, Propose { id: pid(2, 0), value: 99 });
    assert_eq!(run_propose(&mut accs, &mut p, q2, &[0, 1, 2, 3, 4]), Action::Chosen(99));
}

#[test]
fn concurrent_proposers_tie_break_and_retry() {
    let mut accs = acceptors(5);
    let mut p0 = Proposer::new(0, 5);
    let mut p1 = Proposer::new(1, 5);
    let Action::BroadcastPrepare(m0) = p0.handle_request(ProposeRequest { value: 10 }) else {
        panic!("expected a prepare");
    };
    let Action::BroadcastPrepare(m1) = p1.handle_request(ProposeRequest { value: 11 }) else {
        panic!("expected a prepare");
    };
    assert_eq!(m0.id, pid(1, 0));
    assert_eq!(m1.id, pid(1, 1));
    assert!(m1.id.exceeds(&m0.id));
    let Action::BroadcastPropose(q0) = run_prepare(&mut accs, &mut p0, m0, &[0, 1, 2, 3, 4])
    else {
        panic!("expected a propose");
    };
    // The second prepare carries a strictly greater id and demotes the first.
    for a in accs.iter_mut() {
        assert!(a.handle_prepare(&m1).promised);
    }
    let rsp = accs[0].handle_propose(&q0);
    assert!(!rsp.accepted);
    assert_eq!(rsp.min_proposal, pid(1, 1));
    let Action::BroadcastPrepare(retry) = p0.handle_propose_response(q0.id, &rsp) else {
        panic!("expected a retry");
    };
    assert!(retry.id.timestamp >= 2);
    assert_eq!(retry.id, pid(2, 0));
    assert_eq!(p0.local_timestamp(), 2);
}

#[test]
fn equal_prepare_is_refused() {
    let mut a = Acceptor::new(0);
    assert!(a.handle_prepare(&Prepare { id: pid(5, 0) }).promised);
    let rsp = a.handle_prepare(&Prepare { id: pid(5, 0) });
    assert!(!rsp.promised);
    assert_eq!(rsp.accepted_value, None);
    assert_eq!(a.min_proposal(), pid(5, 0));
    assert_eq!(a.accepted_proposal(), pid(0, 0));
}

#[test]
fn minority_reachable_never_completes() {
    let mut accs = acceptors(5);
    let mut p = Proposer::new(0, 5);
    let Action::BroadcastPrepare(m) = p.handle_request(ProposeRequest { value: 3 }) else {
        panic!("expected a prepare");
    };
    assert_eq!(run_prepare(&mut accs, &mut p, m, &[0, 1]), Action::Wait);
    assert_eq!(p.phase(), Phase::Preparing);

    let mut q = Proposer::new(1, 5);
    let Action::BroadcastPrepare(m) = q.handle_request(ProposeRequest { value: 4 }) else {
        panic!("expected a prepare");
    };
    let Action::BroadcastPropose(prop) = run_prepare(&mut accs, &mut q, m, &[0, 1, 2]) else {
        panic!("expected a propose");
    };
    assert_eq!(run_propose(&mut accs, &mut q, prop, &[3, 4]), Action::Wait);
    assert_eq!(q.phase(), Phase::Accepting);
}

#[test]
fn repeated_and_stale_replies_are_ignored() {
    let mut p = Proposer::new(0, 3);
    let Action::BroadcastPrepare(m) = p.handle_request(ProposeRequest { value: 1 }) else {
        panic!("expected a prepare");
    };
    let rsp = PrepareResponse {
        id: 0,
        promised: true,
        accepted_proposal: pid(0, 0),
        accepted_value: None,
    };
    assert_eq!(p.handle_prepare_response(m.id, &rsp), Action::Wait);
    // The same acceptor again, a reply to another round, an unknown acceptor.
    assert_eq!(p.handle_prepare_response(m.id, &rsp), Action::Wait);
    assert_eq!(p.handle_prepare_response(pid(9, 9), &PrepareResponse { id: 1, ..rsp }), Action::Wait);
    assert_eq!(p.handle_prepare_response(m.id, &PrepareResponse { id: 3, ..rsp }), Action::Wait);
    assert_eq!(
        p.handle_prepare_response(m.id, &PrepareResponse { id: 1, promised: false, ..rsp }),
        Action::Wait
    );
    assert_eq!(p.phase(), Phase::Preparing);
    assert_eq!(
        p.handle_prepare_response(m.id, &PrepareResponse { id: 1, ..rsp }),
        Action::BroadcastPropose(Propose { id: pid(1, 0), value: 1 })
    );
}

#[test]
fn new_request_starts_a_higher_round() {
    let mut p = Proposer::new(4, 3);
    assert_eq!(p.local_timestamp(), 0);
    assert_eq!(p.phase(), Phase::Idle);
    assert_eq!(
        p.handle_request(ProposeRequest { value: 1 }),
        Action::BroadcastPrepare(Prepare { id: pid(1, 4) })
    );
    assert_eq!(
        p.handle_request(ProposeRequest { value: 2 }),
        Action::BroadcastPrepare(Prepare { id: pid(2, 4) })
    );
    assert_eq!(p.proposal(), pid(2, 4));
    assert_eq!(p.id(), 4);
}

#[test]
fn preemption_at_largest_timestamp_goes_idle() {
    let mut p = Proposer::new(0, 1);
    let Action::BroadcastPrepare(m) = p.handle_request(ProposeRequest { value: 1 }) else {
        panic!("expected a prepare");
    };
    let rsp = PrepareResponse {
        id: 0,
        promised: true,
        accepted_proposal: pid(0, 0),
        accepted_value: None,
    };
    let Action::BroadcastPropose(q) = p.handle_prepare_response(m.id, &rsp) else {
        panic!("expected a propose");
    };
    let refusal = ProposeResponse {
        id: 0,
        accepted: false,
        min_proposal: pid(usize::MAX, 0),
    };
    assert_eq!(p.handle_propose_response(q.id, &refusal), Action::Wait);
    assert_eq!(p.phase(), Phase::Idle);
}
