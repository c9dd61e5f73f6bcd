use apiary_core::hosts::HostTable;
use apiary_core::leader_election::compute_global_state;
use apiary_core::protocol::{DirectiveRequestVoteResponse, HeldInputJack, HeldOutputJack};
use apiary_core::{
    Directive, DirectiveHeartbeat, DirectiveRequestVote, LeaderElection, LocalState, NodeId,
    PatchState, Roles,
};

fn id(name: &str) -> NodeId {
    NodeId::from_bytes(name.as_bytes()).unwrap()
}

fn request_vote(name: &str, term: u32) -> Directive {
    Directive::RequestVote(DirectiveRequestVote { uuid: id(name), term })
}

fn heartbeat(name: &str, term: u32, iteration: u32) -> Directive {
    Directive::Heartbeat(DirectiveHeartbeat { uuid: id(name), term, iteration })
}

fn grant(name: &str, term: u32, candidate: &str) -> Directive {
    Directive::RequestVoteResponse(DirectiveRequestVoteResponse {
        uuid: id(name),
        term,
        voted_for: id(candidate),
        vote_granted: true,
    })
}

#[test]
fn vote_granted_once_per_term() {
    let mut le = LeaderElection::new(id("a"), 0, 0);
    // First candidate of term 1 gets the vote.
    let r = le.poll(Some(request_vote("b", 1)), 1, 0).unwrap();
    match r {
        Directive::RequestVoteResponse(vr) => {
            assert!(vr.vote_granted);
            assert_eq!(vr.term, 1);
            assert!(vr.voted_for.eq_id(&id("b")));
        }
        other => panic!("unexpected response {:?}", other),
    }
    // A different candidate in the same term is refused.
    let r = le.poll(Some(request_vote("c", 1)), 2, 0).unwrap();
    match r {
        Directive::RequestVoteResponse(vr) => {
            assert!(!vr.vote_granted);
            assert!(vr.voted_for.eq_id(&id("c")));
        }
        other => panic!("unexpected response {:?}", other),
    }
    // The candidate already voted for may ask again.
    let r = le.poll(Some(request_vote("b", 1)), 3, 0).unwrap();
    match r {
        Directive::RequestVoteResponse(vr) => assert!(vr.vote_granted),
        other => panic!("unexpected response {:?}", other),
    }
}

#[test]
fn stale_vote_request_rejected() {
    let mut le = LeaderElection::new(id("a"), 0, 0);
    let _ = le.poll(Some(request_vote("b", 5)), 1, 0);
    assert_eq!(le.current_term(), 5);
    let r = le.poll(Some(request_vote("c", 4)), 2, 0).unwrap();
    match r {
        Directive::RequestVoteResponse(vr) => {
            assert!(!vr.vote_granted);
            assert_eq!(vr.term, 5);
        }
        other => panic!("unexpected response {:?}", other),
    }
}

#[test]
fn term_never_decreases() {
    let mut le = LeaderElection::new(id("a"), 0, 0);
    let mut last = le.current_term();
    let messages = [
        heartbeat("b", 4, 0),
        heartbeat("c", 2, 1),
        request_vote("d", 9),
        request_vote("e", 3),
        heartbeat("b", 9, 2),
        heartbeat("b", 1, 3),
    ];
    for (k, m) in messages.into_iter().enumerate() {
        let _ = le.poll(Some(m), k as i64 + 1, 0);
        assert!(le.current_term() >= last);
        last = le.current_term();
    }
    assert_eq!(last, 9);
}

#[test]
fn heartbeat_answered_with_state() {
    let mut le = LeaderElection::new(id("a"), 0, 0);
    let held = LocalState {
        num_held_inputs: 1,
        num_held_outputs: 0,
        held_input: Some(HeldInputJack { uuid: id("a"), id: 0 }),
        held_output: None,
    };
    le.update_local_state(held);
    let r = le.poll(Some(heartbeat("lead", 2, 7)), 5, 0).unwrap();
    match r {
        Directive::HeartbeatResponse(hr) => {
            assert!(hr.success);
            assert_eq!(hr.iteration, Some(7));
            assert_eq!(hr.term, 2);
            let st = hr.state.unwrap();
            assert_eq!(st.num_held_inputs, 1);
            assert!(st.held_input.unwrap().uuid.eq_id(&id("a")));
        }
        other => panic!("unexpected response {:?}", other),
    }
    assert_eq!(le.role(), Roles::Follower);
    // A stale heartbeat draws a failure report instead.
    let r = le.poll(Some(heartbeat("old", 1, 0)), 6, 0).unwrap();
    match r {
        Directive::HeartbeatResponse(hr) => {
            assert!(!hr.success);
            assert_eq!(hr.term, 2);
        }
        other => panic!("unexpected response {:?}", other),
    }
}

#[test]
fn majority_promotes_candidate() {
    let mut le = LeaderElection::new(id("a"), 0, 10);
    // Election timeout fires: the node becomes a candidate for term 1.
    let r = le.poll(None, 400, 10).unwrap();
    match r {
        Directive::RequestVote(rv) => {
            assert_eq!(rv.term, 1);
            assert!(rv.uuid.eq_id(&id("a")));
        }
        other => panic!("unexpected broadcast {:?}", other),
    }
    assert_eq!(le.role(), Roles::Candidate);
    // Grants arrive from two of the three hosts now seen: a strict majority.
    assert!(le.poll(Some(grant("b", 1, "a")), 405, 10).is_none());
    assert!(le.poll(Some(grant("c", 1, "a")), 406, 10).is_none());
    // Heartbeat timeout: 3 granters (a, b, c) of 3 seen hosts.
    assert!(le.poll(None, 500, 10).is_none());
    assert_eq!(le.role(), Roles::Leader);
}

#[test]
fn minority_reverts_to_follower() {
    let mut le = LeaderElection::new(id("a"), 0, 10);
    let _ = le.poll(None, 400, 10);
    assert_eq!(le.role(), Roles::Candidate);
    // Two more hosts are seen, but neither sends a grant for this term:
    // one grant names the wrong term, one names another candidate.
    assert!(le.poll(Some(grant("b", 9, "a")), 405, 10).is_none());
    assert!(le.poll(Some(grant("c", 1, "zz")), 406, 10).is_none());
    // Heartbeat timeout: 1 granter of 3 seen hosts is no strict majority.
    assert!(le.poll(None, 500, 10).is_none());
    assert_eq!(le.role(), Roles::Follower);
}

#[test]
fn exact_half_is_not_a_majority() {
    let mut le = LeaderElection::new(id("a"), 0, 10);
    let _ = le.poll(None, 400, 10);
    // Hosts seen: a, b, c, d. Granters: a (self) and b.
    assert!(le.poll(Some(grant("b", 1, "a")), 405, 10).is_none());
    assert!(le.poll(Some(grant("c", 1, "zz")), 406, 10).is_none());
    let _ = le.poll(Some(heartbeat("d", 0, 0)), 407, 10);
    assert!(le.poll(None, 500, 10).is_none());
    assert_eq!(le.role(), Roles::Follower);
}

#[test]
fn duplicate_grants_counted_once() {
    let mut le = LeaderElection::new(id("a"), 0, 10);
    let _ = le.poll(None, 400, 10);
    // Hosts seen: a, b, c, d; b grants three times, which is one granter.
    assert!(le.poll(Some(grant("b", 1, "a")), 405, 10).is_none());
    assert!(le.poll(Some(grant("b", 1, "a")), 406, 10).is_none());
    assert!(le.poll(Some(grant("b", 1, "a")), 407, 10).is_none());
    let _ = le.poll(Some(heartbeat("c", 0, 0)), 408, 10);
    let _ = le.poll(Some(heartbeat("d", 0, 0)), 409, 10);
    // 2 granters of 4 seen hosts: no strict majority.
    assert!(le.poll(None, 500, 10).is_none());
    assert_eq!(le.role(), Roles::Follower);
}

#[test]
fn leader_steps_down_on_equal_term_heartbeat() {
    let mut le = LeaderElection::new(id("a"), 0, 10);
    let _ = le.poll(None, 400, 10);
    let _ = le.poll(None, 500, 10);
    assert_eq!(le.role(), Roles::Leader);
    assert_eq!(le.current_term(), 1);
    // A heartbeat at the same term means another node leads it: step down.
    let r = le.poll(Some(heartbeat("rival", 1, 0)), 510, 10).unwrap();
    match r {
        Directive::HeartbeatResponse(hr) => assert!(hr.success),
        other => panic!("unexpected response {:?}", other),
    }
    assert_eq!(le.role(), Roles::Follower);
    assert_eq!(le.current_term(), 1);
}

#[test]
fn reset_returns_to_follower() {
    let mut le = LeaderElection::new(id("a"), 0, 10);
    let _ = le.poll(None, 400, 10);
    let _ = le.poll(None, 500, 10);
    assert_eq!(le.role(), Roles::Leader);
    le.reset(600, 10);
    assert_eq!(le.role(), Roles::Follower);
    assert_eq!(le.current_term(), 1);
}

fn input_state(name: &str, n: u8) -> LocalState {
    LocalState {
        num_held_inputs: n,
        num_held_outputs: 0,
        held_input: if n == 1 {
            Some(HeldInputJack { uuid: id(name), id: 0 })
        } else {
            None
        },
        held_output: None,
    }
}

fn output_state(name: &str, n: u8) -> LocalState {
    LocalState {
        num_held_inputs: 0,
        num_held_outputs: n,
        held_input: None,
        held_output: if n == 1 {
            Some(HeldOutputJack { uuid: id(name), id: 0, color: 7, addr: [239, 1, 2, 3] })
        } else {
            None
        },
    }
}

fn aggregate(states: &[LocalState]) -> apiary_core::DirectiveGlobalStateUpdate {
    let mut table = HostTable::new();
    for (k, st) in states.iter().enumerate() {
        let name = format!("host-{}", k);
        let host = NodeId::from_bytes(name.as_bytes()).unwrap();
        assert!(table.insert(&host, Some(*st)));
    }
    compute_global_state(&id("leader"), &table)
}

#[test]
fn aggregation_exhaustive_table() {
    // Totals (inputs, outputs) from 0 to 2 on each side, spread over hosts.
    let cases: [(u8, u8, PatchState); 9] = [
        (0, 0, PatchState::Idle),
        (1, 0, PatchState::PatchEnabled),
        (2, 0, PatchState::Blocked),
        (0, 1, PatchState::PatchEnabled),
        (1, 1, PatchState::PatchToggled),
        (2, 1, PatchState::Blocked),
        (0, 2, PatchState::Blocked),
        (1, 2, PatchState::Blocked),
        (2, 2, PatchState::Blocked),
    ];
    for (ins, outs, expected) in cases {
        let mut states = Vec::new();
        if ins > 0 {
            states.push(input_state("in-holder", ins));
        }
        if outs > 0 {
            states.push(output_state("out-holder", outs));
        }
        let update = aggregate(&states);
        assert_eq!(update.patch_state, expected, "totals ({}, {})", ins, outs);
        assert_eq!(update.input.is_some(), ins == 1 && outs <= 1);
        assert_eq!(update.output.is_some(), outs == 1 && ins <= 1);
    }
}

#[test]
fn aggregation_picks_reported_jacks() {
    let update = aggregate(&[input_state("b", 1), output_state("a", 1)]);
    assert_eq!(update.patch_state, PatchState::PatchToggled);
    let input = update.input.unwrap();
    assert!(input.uuid.eq_id(&id("b")));
    assert_eq!(input.id, 0);
    let output = update.output.unwrap();
    assert!(output.uuid.eq_id(&id("a")));
    assert_eq!(output.color, 7);
    assert_eq!(output.addr, [239, 1, 2, 3]);
}

#[test]
fn conflict() {
    // Two held outputs and no held input: one side is ambiguous.
    let update = aggregate(&[output_state("a", 1), output_state("c", 1)]);
    assert_eq!(update.patch_state, PatchState::Blocked);
    assert!(update.input.is_none());
    assert!(update.output.is_none());
    // A held input on top of the two outputs stays ambiguous.
    let update = aggregate(&[output_state("a", 1), output_state("c", 1), input_state("b", 1)]);
    assert_eq!(update.patch_state, PatchState::Blocked);
    assert!(update.input.is_none());
    assert!(update.output.is_none());
}

#[test]
fn lone_leader_broadcasts_once() {
    let mut le = LeaderElection::new(id("a"), 0, 10);
    let _ = le.poll(None, 400, 10);
    let _ = le.poll(None, 500, 10);
    assert_eq!(le.role(), Roles::Leader);
    // Drive many heartbeat rounds with an unchanged (idle) local state:
    // exactly one global state update is broadcast.
    let mut updates = 0;
    let mut t = 501;
    for _ in 0..40 {
        t += 60;
        if let Some(Directive::GlobalStateUpdate(gsu)) = le.poll(None, t, 10) {
            assert_eq!(gsu.patch_state, PatchState::Idle);
            updates += 1;
        }
    }
    assert_eq!(updates, 1);
}
