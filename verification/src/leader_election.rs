//! Raft-flavoured leader election with piggy-backed state gathering.
//!
//! Each node runs one [`LeaderElection`] instance and feeds it every inbound
//! control directive plus one periodic tick per poll. Followers answer
//! heartbeats and vote requests; a follower whose election timer fires turns
//! candidate and solicits votes; a candidate that has collected grants from
//! a strict majority of the hosts seen this term becomes leader. The leader's
//! heartbeats double as a state poll: the responses carry each node's
//! [`LocalState`], and the leader folds them into one global patch decision
//! ([`aggregate_update`]), broadcast only when it changes.
//!
//! The whole transition relation is captured by the specification function
//! [`election_step`]; [`LeaderElection::poll`] is proved to implement it, and
//! the protocol laws (majority safety, term monotonicity, one vote per term,
//! aggregation classification, duplicate suppression) are proved about it.

use vstd::prelude::*;

use crate::hosts::{
    HostSeq, HostTable, MAX_HOSTS, key_present, lemma_table_insert_props, table_insert, table_wf,
};
use crate::id::NodeId;
use crate::protocol::{
    Directive, DirectiveGlobalStateUpdate, DirectiveGlobalStateUpdateV, DirectiveHeartbeat,
    DirectiveHeartbeatResponse, DirectiveHeartbeatResponseV, DirectiveHeartbeatV,
    DirectiveRequestVote, DirectiveRequestVoteResponse, DirectiveRequestVoteResponseV,
    DirectiveRequestVoteV, DirectiveV, HeldInputJack, HeldInputJackV, HeldOutputJack,
    HeldOutputJackV, LocalState, LocalStateV, PatchState, gsu_eq, opt_directive_view,
};

verus! {

/// Election timeouts are drawn from this half-open interval after `time`.
pub const ELECTION_TIMEOUT_MIN: i64 = 150;

/// Width of the election-timeout interval, in milliseconds.
pub const ELECTION_TIMEOUT_SPAN: i64 = 150;

/// A leader sends one heartbeat per interval; a candidate decides after one.
pub const HEARTBEAT_INTERVAL: i64 = 50;

/// Largest tick value the election accepts, leaving room for the timers.
pub const MAX_TIME: i64 = i64::MAX - 4096;

/// The three roles a node can hold.
#[derive(Clone, Copy, Debug, PartialEq, Eq, Structural)]
pub enum Roles {
    Follower,
    Candidate,
    Leader,
}

// ---------------------------------------------------------------------------
// Specification model
// ---------------------------------------------------------------------------

/// Mathematical state of one election instance.
#[verifier::ext_equal]
pub struct ElectionV {
    pub id: Seq<u8>,
    pub seen_hosts: HostSeq,
    pub local_state: LocalStateV,
    pub election_timeout: int,
    pub heartbeat_timeout: int,
    pub current_term: u32,
    pub voted_for: Option<Seq<u8>>,
    pub role: Roles,
    pub granters: Seq<Seq<u8>>,
    pub iteration: u32,
    pub last_update: Option<DirectiveGlobalStateUpdateV>,
    pub last_seen_hosts: Option<int>,
}

/// Fresh randomized election deadline after `time`.
pub open spec fn jitter(entropy: u32, time: int) -> int {
    entropy as int % ELECTION_TIMEOUT_SPAN as int + ELECTION_TIMEOUT_MIN as int + time
}

/// Increment that sticks at the largest term instead of wrapping.
pub open spec fn term_inc(t: u32) -> u32 {
    if t < u32::MAX {
        (t + 1) as u32
    } else {
        t
    }
}

/// Insertion when it cannot fail (the key is present, or there is room).
pub open spec fn upsert(t: HostSeq, k: Seq<u8>, v: Option<LocalStateV>) -> HostSeq {
    match table_insert(t, k, v) {
        Some(t2) => t2,
        None => t,
    }
}

/// The state a node starts in: follower at term zero, no vote cast, an empty
/// host table, and both timers armed from `time`.
pub open spec fn election_init(id: Seq<u8>, time: int, entropy: u32) -> ElectionV {
    ElectionV {
        id,
        seen_hosts: Seq::empty(),
        local_state: crate::protocol::empty_local_state(),
        election_timeout: jitter(entropy, time),
        heartbeat_timeout: HEARTBEAT_INTERVAL + time,
        current_term: 0,
        voted_for: None,
        role: Roles::Follower,
        granters: Seq::empty(),
        iteration: 0,
        last_update: None,
        last_seen_hosts: Some(0),
    }
}

/// Falling back to follower with both timers re-armed; term, vote and the
/// gathered state survive.
pub open spec fn election_reset(s: ElectionV, time: int, entropy: u32) -> ElectionV {
    ElectionV {
        role: Roles::Follower,
        election_timeout: jitter(entropy, time),
        heartbeat_timeout: HEARTBEAT_INTERVAL + time,
        ..s
    }
}

/// Structural invariant of every reachable election state.
pub open spec fn election_inv(s: ElectionV) -> bool {
    &&& table_wf(s.seen_hosts)
    &&& (s.seen_hosts.len() == 0 || key_present(s.seen_hosts, s.id))
    &&& (s.role is Candidate ==> {
        &&& (forall|i: int, j: int|
            0 <= i < j < s.granters.len() ==> s.granters[i] != s.granters[j])
        &&& (forall|i: int|
            0 <= i < s.granters.len() ==> key_present(s.seen_hosts, #[trigger] s.granters[i]))
    })
    &&& ((s.role is Candidate || s.role is Leader) ==> s.voted_for == Some(s.id))
}

/// Recording the sender of an inbound directive: the four election message
/// kinds are noted in the host table; a directive naming this node itself, a
/// full table, or any other directive kind is rejected.
pub open spec fn check_step(t: HostSeq, id: Seq<u8>, m: Option<DirectiveV>) -> (HostSeq, bool) {
    match m {
        None => (t, true),
        Some(d) => match d {
            DirectiveV::Heartbeat(hb) => check_sender(t, id, hb.uuid),
            DirectiveV::HeartbeatResponse(hr) => check_sender(t, id, hr.uuid),
            DirectiveV::RequestVote(rv) => check_sender(t, id, rv.uuid),
            DirectiveV::RequestVoteResponse(vr) => check_sender(t, id, vr.uuid),
            _ => (t, false),
        },
    }
}

/// One sender noted in the table; self-reference rejected after the insert,
/// as is a new sender when the table is full.
pub open spec fn check_sender(t: HostSeq, id: Seq<u8>, sender: Seq<u8>) -> (HostSeq, bool) {
    match table_insert(t, sender, None) {
        None => (t, false),
        Some(t2) => (t2, sender != id),
    }
}

/// Reaction to a heartbeat: reject a stale term; otherwise adopt the
/// sender's term, become or stay follower whatever the role was, re-arm the
/// election timer, and answer with this node's state. The recorded vote
/// follows the sender only when the term grew or a candidacy is abandoned.
pub open spec fn step_heartbeat(s: ElectionV, hb: DirectiveHeartbeatV, time: int, entropy: u32) -> (
    ElectionV,
    Option<DirectiveV>,
) {
    if hb.term < s.current_term {
        (
            s,
            Some(
                DirectiveV::HeartbeatResponse(
                    DirectiveHeartbeatResponseV {
                        uuid: s.id,
                        term: s.current_term,
                        success: false,
                        iteration: None,
                        state: None,
                    },
                ),
            ),
        )
    } else {
        let s1 = if hb.term > s.current_term || s.role is Candidate {
            ElectionV {
                current_term: hb.term,
                role: Roles::Follower,
                voted_for: Some(hb.uuid),
                ..s
            }
        } else {
            ElectionV { role: Roles::Follower, ..s }
        };
        let s2 = ElectionV { election_timeout: jitter(entropy, time), ..s1 };
        (
            s2,
            Some(
                DirectiveV::HeartbeatResponse(
                    DirectiveHeartbeatResponseV {
                        uuid: s.id,
                        term: s2.current_term,
                        success: true,
                        iteration: Some(hb.iteration),
                        state: Some(s.local_state),
                    },
                ),
            ),
        )
    }
}

/// Reaction to a vote request: reject a stale term; adopt a larger one; then
/// grant exactly when no vote for another candidate stands this term, and
/// record the vote that was granted.
pub open spec fn step_request_vote(s: ElectionV, rv: DirectiveRequestVoteV) -> (
    ElectionV,
    Option<DirectiveV>,
) {
    if rv.term < s.current_term {
        (
            s,
            Some(
                DirectiveV::RequestVoteResponse(
                    DirectiveRequestVoteResponseV {
                        uuid: s.id,
                        term: s.current_term,
                        voted_for: rv.uuid,
                        vote_granted: false,
                    },
                ),
            ),
        )
    } else {
        let s1 = if rv.term > s.current_term {
            ElectionV {
                current_term: rv.term,
                role: Roles::Follower,
                voted_for: Some(rv.uuid),
                ..s
            }
        } else {
            s
        };
        let grant = match s1.voted_for {
            None => true,
            Some(v) => v == rv.uuid,
        };
        let s2 = if grant {
            ElectionV { voted_for: Some(rv.uuid), ..s1 }
        } else {
            s1
        };
        (
            s2,
            Some(
                DirectiveV::RequestVoteResponse(
                    DirectiveRequestVoteResponseV {
                        uuid: s.id,
                        term: rv.term,
                        voted_for: rv.uuid,
                        vote_granted: grant,
                    },
                ),
            ),
        )
    }
}

/// A granter joins the list once.
pub open spec fn add_granter(g: Seq<Seq<u8>>, u: Seq<u8>) -> Seq<Seq<u8>> {
    if exists|i: int| 0 <= i < g.len() && g[i] == u {
        g
    } else {
        g.push(u)
    }
}

/// The fields of a heartbeat response the leader can use: sender, echoed
/// iteration and reported state, present only on a full success report.
pub open spec fn leader_hbr(m: Option<DirectiveV>) -> Option<(Seq<u8>, u32, LocalStateV)> {
    match m {
        Some(DirectiveV::HeartbeatResponse(hr)) => match (hr.iteration, hr.state) {
            (Some(i), Some(st)) => if hr.success {
                Some((hr.uuid, i, st))
            } else {
                None
            },
            _ => None,
        },
        _ => None,
    }
}

/// The timer-driven transitions, fed any directive that is not a heartbeat
/// or vote request (so a response, or nothing).
pub open spec fn step_tick(s: ElectionV, m: Option<DirectiveV>, time: int, entropy: u32) -> (
    ElectionV,
    Option<DirectiveV>,
) {
    match s.role {
        Roles::Follower => if time > s.election_timeout && s.current_term < u32::MAX {
            let t2 = term_inc(s.current_term);
            (
                ElectionV {
                    role: Roles::Candidate,
                    current_term: t2,
                    voted_for: Some(s.id),
                    seen_hosts: seq![(s.id, Some(s.local_state))],
                    granters: seq![s.id],
                    election_timeout: jitter(entropy, time),
                    heartbeat_timeout: HEARTBEAT_INTERVAL + time,
                    ..s
                },
                Some(DirectiveV::RequestVote(DirectiveRequestVoteV { uuid: s.id, term: t2 })),
            )
        } else {
            (s, None)
        },
        Roles::Candidate => {
            let s1 = match m {
                Some(DirectiveV::RequestVoteResponse(vr)) => if vr.term == s.current_term
                    && vr.voted_for == s.id {
                    if vr.vote_granted {
                        ElectionV { granters: add_granter(s.granters, vr.uuid), ..s }
                    } else {
                        ElectionV { role: Roles::Follower, ..s }
                    }
                } else {
                    s
                },
                _ => s,
            };
            let s2 = if time > s1.heartbeat_timeout {
                if 2 * s1.granters.len() > s1.seen_hosts.len() {
                    ElectionV { role: Roles::Leader, iteration: 0, ..s1 }
                } else {
                    ElectionV { role: Roles::Follower, ..s1 }
                }
            } else {
                s1
            };
            (s2, None)
        },
        Roles::Leader => match leader_hbr(m) {
            Some((sender, i, st)) => if i == s.iteration {
                let t2 = upsert(s.seen_hosts, sender, Some(st));
                if Some(t2.len() as int) == s.last_seen_hosts {
                    let (nl, out) = gsu_step(s.id, t2, s.last_update);
                    (
                        ElectionV { seen_hosts: t2, last_update: nl, last_seen_hosts: None, ..s },
                        wrap_gsu(out),
                    )
                } else {
                    (ElectionV { seen_hosts: t2, ..s }, None)
                }
            } else {
                (s, None)
            },
            None => if time > s.heartbeat_timeout {
                let (nl, out) = if s.last_seen_hosts is Some {
                    gsu_step(s.id, s.seen_hosts, s.last_update)
                } else {
                    (s.last_update, None)
                };
                if out is Some {
                    (ElectionV { last_update: nl, ..s }, wrap_gsu(out))
                } else {
                    let it2 = term_inc(s.iteration);
                    (
                        ElectionV {
                            heartbeat_timeout: HEARTBEAT_INTERVAL + time,
                            last_seen_hosts: Some(s.seen_hosts.len() as int),
                            seen_hosts: seq![(s.id, Some(s.local_state))],
                            iteration: it2,
                            ..s
                        },
                        Some(
                            DirectiveV::Heartbeat(
                                DirectiveHeartbeatV {
                                    uuid: s.id,
                                    term: s.current_term,
                                    iteration: it2,
                                },
                            ),
                        ),
                    )
                }
            } else {
                (s, None)
            },
        },
    }
}

/// A computed update wrapped as a directive.
pub open spec fn wrap_gsu(o: Option<DirectiveGlobalStateUpdateV>) -> Option<DirectiveV> {
    match o {
        Some(u) => Some(DirectiveV::GlobalStateUpdate(u)),
        None => None,
    }
}

/// The whole transition: sanity-check and record the sender, note this
/// node's own state, then dispatch on the message.
pub open spec fn election_step(s: ElectionV, m: Option<DirectiveV>, time: int, entropy: u32) -> (
    ElectionV,
    Option<DirectiveV>,
) {
    let (t1, ok) = check_step(s.seen_hosts, s.id, m);
    if !ok {
        (ElectionV { seen_hosts: t1, ..s }, None)
    } else {
        let s1 = ElectionV { seen_hosts: upsert(t1, s.id, Some(s.local_state)), ..s };
        match m {
            Some(DirectiveV::Heartbeat(hb)) => step_heartbeat(s1, hb, time, entropy),
            Some(DirectiveV::RequestVote(rv)) => step_request_vote(s1, rv),
            _ => step_tick(s1, m, time, entropy),
        }
    }
}

// ---------------------------------------------------------------------------
// Specification of the aggregation round
// ---------------------------------------------------------------------------

/// Total number of held input jacks reported across the table.
pub open spec fn agg_in_count(t: HostSeq) -> int
    decreases t.len(),
{
    if t.len() == 0 {
        0
    } else {
        agg_in_count(t.take(t.len() as int - 1)) + match t[t.len() as int - 1].1 {
            Some(ls) => ls.num_held_inputs as int,
            None => 0,
        }
    }
}

/// Total number of held output jacks reported across the table.
pub open spec fn agg_out_count(t: HostSeq) -> int
    decreases t.len(),
{
    if t.len() == 0 {
        0
    } else {
        agg_out_count(t.take(t.len() as int - 1)) + match t[t.len() as int - 1].1 {
            Some(ls) => ls.num_held_outputs as int,
            None => 0,
        }
    }
}

/// The first input jack reported by a node holding exactly one.
pub open spec fn agg_first_input(t: HostSeq) -> Option<HeldInputJackV>
    decreases t.len(),
{
    if t.len() == 0 {
        None
    } else {
        match agg_first_input(t.take(t.len() as int - 1)) {
            Some(j) => Some(j),
            None => match t[t.len() as int - 1].1 {
                Some(ls) => if ls.num_held_inputs == 1 {
                    ls.held_input
                } else {
                    None
                },
                None => None,
            },
        }
    }
}

/// The first output jack reported by a node holding exactly one.
pub open spec fn agg_first_output(t: HostSeq) -> Option<HeldOutputJackV>
    decreases t.len(),
{
    if t.len() == 0 {
        None
    } else {
        match agg_first_output(t.take(t.len() as int - 1)) {
            Some(j) => Some(j),
            None => match t[t.len() as int - 1].1 {
                Some(ls) => if ls.num_held_outputs == 1 {
                    ls.held_output
                } else {
                    None
                },
                None => None,
            },
        }
    }
}

/// The global state each pair of totals classifies to.
pub open spec fn classify(ins: int, outs: int) -> PatchState {
    if ins == 0 && outs == 0 {
        PatchState::Idle
    } else if ins == 1 && outs == 0 {
        PatchState::PatchEnabled
    } else if ins == 0 && outs == 1 {
        PatchState::PatchEnabled
    } else if ins == 1 && outs == 1 {
        PatchState::PatchToggled
    } else {
        PatchState::Blocked
    }
}

/// The decision the leader computes from the gathered table: the classified
/// state, plus the concrete jacks exactly when one side holds exactly one.
pub open spec fn aggregate_update(id: Seq<u8>, t: HostSeq) -> DirectiveGlobalStateUpdateV {
    let ins = agg_in_count(t);
    let outs = agg_out_count(t);
    DirectiveGlobalStateUpdateV {
        uuid: id,
        patch_state: classify(ins, outs),
        input: if ins == 1 && outs <= 1 {
            agg_first_input(t)
        } else {
            None
        },
        output: if outs == 1 && ins <= 1 {
            agg_first_output(t)
        } else {
            None
        },
    }
}

/// Duplicate suppression: the freshly computed update is emitted only when
/// it differs from the one last broadcast.
pub open spec fn gsu_step(id: Seq<u8>, t: HostSeq, last: Option<DirectiveGlobalStateUpdateV>) -> (
    Option<DirectiveGlobalStateUpdateV>,
    Option<DirectiveGlobalStateUpdateV>,
) {
    let u = aggregate_update(id, t);
    if Some(u) != last {
        (Some(u), Some(u))
    } else {
        (last, None)
    }
}

/// A whole run: the state after feeding each input (message, time, entropy)
/// in order.
pub open spec fn election_run(s: ElectionV, inputs: Seq<(Option<DirectiveV>, int, u32)>) -> ElectionV
    decreases inputs.len(),
{
    if inputs.len() == 0 {
        s
    } else {
        election_run(
            election_step(s, inputs[0].0, inputs[0].1, inputs[0].2).0,
            inputs.subrange(1, inputs.len() as int),
        )
    }
}

// ---------------------------------------------------------------------------
// Laws
// ---------------------------------------------------------------------------

/// Term monotonicity: the stored term never decreases, and it grows only on
/// seeing a strictly larger term in a heartbeat or vote request, or by the
/// node starting its own candidacy with the next term.
pub proof fn lemma_term_monotonic(s: ElectionV, m: Option<DirectiveV>, time: int, entropy: u32)
    ensures
        ({
            let s2 = election_step(s, m, time, entropy).0;
            &&& s2.current_term >= s.current_term
            &&& s2.current_term > s.current_term ==> {
                ||| (m matches Some(DirectiveV::Heartbeat(hb)) && hb.term > s.current_term)
                ||| (m matches Some(DirectiveV::RequestVote(rv)) && rv.term > s.current_term)
                ||| (s.role is Follower && s2.role is Candidate && s2.current_term
                    == s.current_term + 1)
            }
        }),
{
}

/// The structural invariant survives every step.
#[verifier::rlimit(100)]
pub proof fn lemma_inv_step(s: ElectionV, m: Option<DirectiveV>, time: int, entropy: u32)
    requires
        election_inv(s),
    ensures
        election_inv(election_step(s, m, time, entropy).0),
{
    let (t1, ok) = check_step(s.seen_hosts, s.id, m);
    match m {
        None => {},
        Some(d) => match d {
            DirectiveV::Heartbeat(hb) => {
                lemma_table_insert_props(s.seen_hosts, hb.uuid, None);
            },
            DirectiveV::HeartbeatResponse(hr) => {
                lemma_table_insert_props(s.seen_hosts, hr.uuid, None);
            },
            DirectiveV::RequestVote(rv) => {
                lemma_table_insert_props(s.seen_hosts, rv.uuid, None);
            },
            DirectiveV::RequestVoteResponse(vr) => {
                lemma_table_insert_props(s.seen_hosts, vr.uuid, None);
            },
            _ => {},
        },
    }
    if !ok {
        assert(table_wf(t1));
        assert(t1.len() == 0 || key_present(t1, s.id));
        assert(election_inv(ElectionV { seen_hosts: t1, ..s }));
    } else {
        lemma_table_insert_props(t1, s.id, Some(s.local_state));
        let ts = upsert(t1, s.id, Some(s.local_state));
        assert(table_insert(t1, s.id, Some(s.local_state)) is Some) by {
            if t1.len() == MAX_HOSTS {
                assert(s.seen_hosts.len() > 0);
                assert(key_present(s.seen_hosts, s.id));
                assert(key_present(t1, s.id));
            }
        }
        let s1 = ElectionV { seen_hosts: ts, ..s };
        assert(table_wf(ts));
        assert(key_present(ts, s.id));
        assert(s1.role is Candidate ==> forall|i: int|
            0 <= i < s1.granters.len() ==> key_present(ts, #[trigger] s1.granters[i]));
        match m {
            Some(DirectiveV::Heartbeat(hb)) => {
                assert(election_inv(step_heartbeat(s1, hb, time, entropy).0));
            },
            Some(DirectiveV::RequestVote(rv)) => {
                assert(rv.uuid != s.id);
                assert(election_inv(step_request_vote(s1, rv).0));
            },
            _ => {
                match s1.role {
                    Roles::Follower => {
                        if time > s1.election_timeout && s1.current_term < u32::MAX {
                            let sc = step_tick(s1, m, time, entropy).0;
                            assert(key_present(sc.seen_hosts, s.id)) by {
                                assert(sc.seen_hosts[0].0 == s.id);
                            }
                            assert(forall|i: int|
                                0 <= i < sc.granters.len() ==> key_present(
                                    sc.seen_hosts,
                                    #[trigger] sc.granters[i],
                                ));
                            assert(election_inv(sc));
                        }
                    },
                    Roles::Candidate => {
                        let s2 = match m {
                            Some(DirectiveV::RequestVoteResponse(vr)) => if vr.term
                                == s1.current_term && vr.voted_for == s1.id {
                                if vr.vote_granted {
                                    ElectionV { granters: add_granter(s1.granters, vr.uuid), ..s1 }
                                } else {
                                    ElectionV { role: Roles::Follower, ..s1 }
                                }
                            } else {
                                s1
                            },
                            _ => s1,
                        };
                        assert(s2.role is Candidate ==> {
                            &&& (forall|i: int, j: int|
                                0 <= i < j < s2.granters.len() ==> s2.granters[i]
                                    != s2.granters[j])
                            &&& (forall|i: int|
                                0 <= i < s2.granters.len() ==> key_present(
                                    s2.seen_hosts,
                                    #[trigger] s2.granters[i],
                                ))
                        }) by {
                            match m {
                                Some(DirectiveV::RequestVoteResponse(vr)) => {
                                    if vr.term == s1.current_term && vr.voted_for == s1.id
                                        && vr.vote_granted {
                                        let g2 = add_granter(s1.granters, vr.uuid);
                                        if !(exists|i: int|
                                            0 <= i < s1.granters.len() && s1.granters[i]
                                                == vr.uuid) {
                                            assert(g2 == s1.granters.push(vr.uuid));
                                            assert(forall|i: int|
                                                0 <= i < s1.granters.len() ==> g2[i]
                                                    == s1.granters[i]);
                                            assert(g2[g2.len() - 1] == vr.uuid);
                                            assert(key_present(ts, vr.uuid));
                                        }
                                    }
                                },
                                _ => {},
                            }
                        }
                        assert(election_inv(step_tick(s1, m, time, entropy).0));
                    },
                    Roles::Leader => {
                        match leader_hbr(m) {
                            Some((sender, i, st)) => {
                                if i == s1.iteration {
                                    lemma_table_insert_props(ts, sender, Some(st));
                                    let t2 = upsert(ts, sender, Some(st));
                                    assert(table_wf(t2));
                                    assert(key_present(t2, s.id));
                                    assert(t2.len() > 0);
                                    assert(election_inv(step_tick(s1, m, time, entropy).0));
                                }
                            },
                            None => {
                                if time > s1.heartbeat_timeout {
                                    let sc = step_tick(s1, m, time, entropy).0;
                                    assert(sc.seen_hosts.len() == 0 || key_present(
                                        sc.seen_hosts,
                                        s.id,
                                    )) by {
                                        if sc.seen_hosts.len() == 1 {
                                            assert(sc.seen_hosts[0].0 == s.id);
                                        }
                                    }
                                    assert(election_inv(sc));
                                }
                            },
                        }
                    },
                }
            },
        }
    }
}

/// Majority safety: whenever a step makes the node leader, the grants it
/// holds come from distinct hosts, every granter is a host seen this term,
/// and the granters form a strict majority of the hosts seen. Moreover, a
/// candidate whose decision timer fires on an accepted tick becomes leader
/// exactly when that strict majority stands; otherwise it falls back to
/// follower.
pub proof fn lemma_majority_safety(s: ElectionV, m: Option<DirectiveV>, time: int, entropy: u32)
    requires
        election_inv(s),
        !(s.role is Leader),
    ensures
        ({
            let s2 = election_step(s, m, time, entropy).0;
            s2.role is Leader ==> {
                &&& 2 * s2.granters.len() > s2.seen_hosts.len()
                &&& (forall|i: int, j: int|
                    0 <= i < j < s2.granters.len() ==> s2.granters[i] != s2.granters[j])
                &&& (forall|i: int|
                    0 <= i < s2.granters.len() ==> key_present(
                        s2.seen_hosts,
                        #[trigger] s2.granters[i],
                    ))
            }
        }),
        ({
            let ok = check_step(s.seen_hosts, s.id, m).1;
            let s2 = election_step(s, m, time, entropy).0;
            (ok && s.role is Candidate && time > s.heartbeat_timeout && !(m matches Some(
                DirectiveV::Heartbeat(_),
            )) && !(m matches Some(DirectiveV::RequestVote(_)))) ==> {
                &&& (s2.role is Leader <==> 2 * s2.granters.len() > s2.seen_hosts.len())
                &&& (!(s2.role is Leader) ==> s2.role is Follower)
            }
        }),
{
    let (t1, ok) = check_step(s.seen_hosts, s.id, m);
    if ok {
        match m {
            Some(DirectiveV::HeartbeatResponse(hr)) => {
                lemma_table_insert_props(s.seen_hosts, hr.uuid, None);
            },
            Some(DirectiveV::RequestVoteResponse(vr)) => {
                lemma_table_insert_props(s.seen_hosts, vr.uuid, None);
            },
            Some(DirectiveV::Heartbeat(hb)) => {
                lemma_table_insert_props(s.seen_hosts, hb.uuid, None);
            },
            Some(DirectiveV::RequestVote(rv)) => {
                lemma_table_insert_props(s.seen_hosts, rv.uuid, None);
            },
            _ => {},
        }
        lemma_table_insert_props(t1, s.id, Some(s.local_state));
        let s1 = ElectionV { seen_hosts: upsert(t1, s.id, Some(s.local_state)), ..s };
        match m {
            Some(DirectiveV::Heartbeat(hb)) => {},
            Some(DirectiveV::RequestVote(rv)) => {},
            _ => {
                if s1.role is Candidate {
                    let sg = match m {
                        Some(DirectiveV::RequestVoteResponse(vr)) => if vr.term == s1.current_term
                            && vr.voted_for == s1.id {
                            if vr.vote_granted {
                                ElectionV { granters: add_granter(s1.granters, vr.uuid), ..s1 }
                            } else {
                                ElectionV { role: Roles::Follower, ..s1 }
                            }
                        } else {
                            s1
                        },
                        _ => s1,
                    };
                    assert(forall|i: int, j: int|
                        0 <= i < j < sg.granters.len() ==> sg.granters[i] != sg.granters[j]) by {
                        match m {
                            Some(DirectiveV::RequestVoteResponse(vr)) => {
                                let g2 = add_granter(s1.granters, vr.uuid);
                                if !(exists|i: int|
                                    0 <= i < s1.granters.len() && s1.granters[i] == vr.uuid) {
                                    assert(forall|i: int|
                                        0 <= i < s1.granters.len() ==> g2[i] == s1.granters[i]);
                                    assert(g2[g2.len() - 1] == vr.uuid);
                                }
                            },
                            _ => {},
                        }
                    }
                    assert(forall|i: int|
                        0 <= i < sg.granters.len() ==> key_present(
                            sg.seen_hosts,
                            #[trigger] sg.granters[i],
                        )) by {
                        match m {
                            Some(DirectiveV::RequestVoteResponse(vr)) => {
                                let g2 = add_granter(s1.granters, vr.uuid);
                                if !(exists|i: int|
                                    0 <= i < s1.granters.len() && s1.granters[i] == vr.uuid) {
                                    assert(forall|i: int|
                                        0 <= i < s1.granters.len() ==> g2[i] == s1.granters[i]);
                                    assert(g2[g2.len() - 1] == vr.uuid);
                                    assert(key_present(t1, vr.uuid));
                                    assert(key_present(s1.seen_hosts, vr.uuid));
                                }
                            },
                            _ => {},
                        }
                    }
                }
            },
        }
    }
}

/// What a granted vote pins down: afterwards the node is a follower whose
/// recorded vote, at exactly the reply's term, names the candidate; and a
/// grant at an unchanged term is only ever consistent with the stored vote.
pub proof fn lemma_grant_locks(s: ElectionV, m: Option<DirectiveV>, time: int, entropy: u32)
    requires
        election_inv(s),
    ensures
        ({
            let (s2, o) = election_step(s, m, time, entropy);
            o matches Some(DirectiveV::RequestVoteResponse(r)) ==> r.vote_granted ==> {
                &&& s2.current_term == r.term
                &&& s2.voted_for == Some(r.voted_for)
                &&& s2.role is Follower
                &&& s.current_term <= r.term
                &&& (s.current_term == r.term ==> (s.voted_for is None || s.voted_for == Some(
                    r.voted_for,
                )))
            }
        }),
{
    let (t1, ok) = check_step(s.seen_hosts, s.id, m);
    if ok {
        match m {
            Some(DirectiveV::RequestVote(rv)) => {
                assert(rv.uuid != s.id);
            },
            _ => {},
        }
    }
}

/// A follower's recorded vote is stable while its term stands still.
pub open spec fn vote_locked(s: ElectionV, t: u32, c: Seq<u8>) -> bool {
    s.current_term == t ==> (s.voted_for == Some(c) && s.role is Follower)
}

/// One step preserves a locked vote.
pub proof fn lemma_vote_locked_step(
    s: ElectionV,
    m: Option<DirectiveV>,
    time: int,
    entropy: u32,
    t: u32,
    c: Seq<u8>,
)
    requires
        election_inv(s),
        vote_locked(s, t, c),
        s.current_term >= t,
    ensures
        ({
            let s2 = election_step(s, m, time, entropy).0;
            vote_locked(s2, t, c) && s2.current_term >= t
        }),
{
    lemma_term_monotonic(s, m, time, entropy);
}

/// A whole run preserves a locked vote, and the invariant, and monotonicity.
pub proof fn lemma_vote_locked_run(
    s: ElectionV,
    inputs: Seq<(Option<DirectiveV>, int, u32)>,
    t: u32,
    c: Seq<u8>,
)
    requires
        election_inv(s),
        vote_locked(s, t, c),
        s.current_term >= t,
    ensures
        ({
            let sf = election_run(s, inputs);
            election_inv(sf) && vote_locked(sf, t, c) && sf.current_term >= t
        }),
    decreases inputs.len(),
{
    if inputs.len() > 0 {
        let s2 = election_step(s, inputs[0].0, inputs[0].1, inputs[0].2).0;
        lemma_inv_step(s, inputs[0].0, inputs[0].1, inputs[0].2);
        lemma_vote_locked_step(s, inputs[0].0, inputs[0].1, inputs[0].2, t, c);
        lemma_vote_locked_run(s2, inputs.subrange(1, inputs.len() as int), t, c);
    }
}

/// Single vote per term: across any run, two granted votes that carry the
/// same term name the same candidate.
pub proof fn lemma_single_vote_per_term(
    s: ElectionV,
    m1: Option<DirectiveV>,
    time1: int,
    e1: u32,
    mid: Seq<(Option<DirectiveV>, int, u32)>,
    m2: Option<DirectiveV>,
    time2: int,
    e2: u32,
)
    requires
        election_inv(s),
    ensures
        ({
            let (s1, o1) = election_step(s, m1, time1, e1);
            let s3 = election_run(s1, mid);
            let (s4, o2) = election_step(s3, m2, time2, e2);
            o1 matches Some(DirectiveV::RequestVoteResponse(r1)) ==> o2 matches Some(
                DirectiveV::RequestVoteResponse(r2),
            ) ==> (r1.vote_granted && r2.vote_granted && r1.term == r2.term) ==> r1.voted_for
                == r2.voted_for
        }),
{
    let (s1, o1) = election_step(s, m1, time1, e1);
    let s3 = election_run(s1, mid);
    let (s4, o2) = election_step(s3, m2, time2, e2);
    match (o1, o2) {
        (
            Some(DirectiveV::RequestVoteResponse(r1)),
            Some(DirectiveV::RequestVoteResponse(r2)),
        ) => {
            if r1.vote_granted && r2.vote_granted && r1.term == r2.term {
                lemma_grant_locks(s, m1, time1, e1);
                lemma_inv_step(s, m1, time1, e1);
                lemma_vote_locked_run(s1, mid, r1.term, r1.voted_for);
                lemma_grant_locks(s3, m2, time2, e2);
                lemma_term_monotonic(s3, m2, time2, e2);
                assert(s3.current_term <= r2.term);
                assert(s3.current_term >= r1.term);
                assert(s3.current_term == r1.term);
                assert(s3.voted_for == Some(r1.voted_for));
            }
        },
        _ => {},
    }
}

/// Aggregation classification: the computed patch state is exactly the
/// classification of the two totals, for every combination.
pub proof fn lemma_aggregation_table(id: Seq<u8>, t: HostSeq)
    ensures
        ({
            let ins = agg_in_count(t);
            let outs = agg_out_count(t);
            let u = aggregate_update(id, t);
            &&& u.patch_state == classify(ins, outs)
            &&& (ins == 0 && outs == 0 ==> u.patch_state is Idle)
            &&& (ins == 1 && outs == 0 ==> u.patch_state is PatchEnabled)
            &&& (ins == 0 && outs == 1 ==> u.patch_state is PatchEnabled)
            &&& (ins == 1 && outs == 1 ==> u.patch_state is PatchToggled)
            &&& (ins >= 2 || outs >= 2 ==> u.patch_state is Blocked)
        }),
{
}

/// No duplicate broadcast: with the table unchanged, the round after an
/// aggregation round emits nothing.
pub proof fn lemma_no_duplicate_broadcast(
    id: Seq<u8>,
    t: HostSeq,
    last: Option<DirectiveGlobalStateUpdateV>,
)
    ensures
        ({
            let (l1, o1) = gsu_step(id, t, last);
            gsu_step(id, t, l1).1 is None
        }),
{
}

// ---------------------------------------------------------------------------
// Executable state machine
// ---------------------------------------------------------------------------

/// Per-node election state machine.
pub struct LeaderElection {
    id: NodeId,
    seen_hosts: HostTable,
    local_state: LocalState,
    election_timeout: i64,
    heartbeat_timeout: i64,
    current_term: u32,
    voted_for: Option<NodeId>,
    role: Roles,
    granters: Vec<NodeId>,
    iteration: u32,
    last_update: Option<DirectiveGlobalStateUpdate>,
    last_seen_hosts: Option<usize>,
}

impl View for LeaderElection {
    type V = ElectionV;

    closed spec fn view(&self) -> ElectionV {
        ElectionV {
            id: self.id@,
            seen_hosts: self.seen_hosts@,
            local_state: self.local_state@,
            election_timeout: self.election_timeout as int,
            heartbeat_timeout: self.heartbeat_timeout as int,
            current_term: self.current_term,
            voted_for: match self.voted_for {
                Some(v) => Some(v@),
                None => None,
            },
            role: self.role,
            granters: Seq::new(self.granters@.len(), |i: int| self.granters@[i]@),
            iteration: self.iteration,
            last_update: match self.last_update {
                Some(u) => Some(u@),
                None => None,
            },
            last_seen_hosts: match self.last_seen_hosts {
                Some(n) => Some(n as int),
                None => None,
            },
        }
    }
}

/// Fold the gathered table into the global decision it classifies to.
pub fn compute_global_state(id: &NodeId, hosts: &HostTable) -> (r: DirectiveGlobalStateUpdate)
    requires
        table_wf(hosts@),
    ensures
        r@ == aggregate_update(id@, hosts@),
{
    let ghost t = hosts@;
    let n = hosts.len();
    let mut ins: u32 = 0;
    let mut outs: u32 = 0;
    let mut first_in: Option<HeldInputJack> = None;
    let mut first_out: Option<HeldOutputJack> = None;
    let mut i: usize = 0;
    while i < n
        invariant
            i <= n == t.len(),
            t == hosts@,
            table_wf(t),
            ins as int == agg_in_count(t.take(i as int)),
            outs as int == agg_out_count(t.take(i as int)),
            ins <= 255 * i,
            outs <= 255 * i,
            crate::protocol::opt_input_view(first_in) == agg_first_input(t.take(i as int)),
            crate::protocol::opt_output_view(first_out) == agg_first_output(t.take(i as int)),
        decreases n - i,
    {
        proof {
            assert(t.take(i + 1).take(i as int) =~= t.take(i as int));
            assert(t.take(i + 1)[i as int] == t[i as int]);
        }
        if let Some(ls) = hosts.state_at(i) {
            ins = ins + ls.num_held_inputs as u32;
            outs = outs + ls.num_held_outputs as u32;
            if first_in.is_none() && ls.num_held_inputs == 1 {
                first_in = ls.held_input;
            }
            if first_out.is_none() && ls.num_held_outputs == 1 {
                first_out = ls.held_output;
            }
        }
        i += 1;
    }
    proof {
        assert(t.take(n as int) =~= t);
    }
    let patch_state = if ins == 0 && outs == 0 {
        PatchState::Idle
    } else if ins == 1 && outs == 0 {
        PatchState::PatchEnabled
    } else if ins == 0 && outs == 1 {
        PatchState::PatchEnabled
    } else if ins == 1 && outs == 1 {
        PatchState::PatchToggled
    } else {
        PatchState::Blocked
    };
    let input = if ins == 1 && outs <= 1 {
        first_in
    } else {
        None
    };
    let output = if outs == 1 && ins <= 1 {
        first_out
    } else {
        None
    };
    let r = DirectiveGlobalStateUpdate { uuid: *id, patch_state, input, output };
    proof {
        assert(r@ =~= aggregate_update(id@, hosts@));
    }
    r
}

impl LeaderElection {
    /// A fresh follower at term zero, with both timers armed from `time`.
    pub fn new(id: NodeId, time: i64, entropy: u32) -> (r: LeaderElection)
        requires
            time <= MAX_TIME,
        ensures
            r@ == election_init(id@, time as int, entropy),
            election_inv(r@),
    {
        let r = LeaderElection {
            id,
            seen_hosts: HostTable::new(),
            local_state: LocalState::empty(),
            election_timeout: (entropy % (ELECTION_TIMEOUT_SPAN as u32)) as i64
                + ELECTION_TIMEOUT_MIN + time,
            heartbeat_timeout: HEARTBEAT_INTERVAL + time,
            current_term: 0,
            voted_for: None,
            role: Roles::Follower,
            granters: Vec::new(),
            iteration: 0,
            last_update: None,
            last_seen_hosts: Some(0),
        };
        proof {
            assert(r@ =~= election_init(id@, time as int, entropy));
        }
        r
    }

    /// Fall back to follower and re-arm both timers; used when the link is
    /// down, so a stale leadership cannot survive a partition.
    pub fn reset(&mut self, time: i64, entropy: u32)
        requires
            time <= MAX_TIME,
        ensures
            final(self)@ == election_reset(old(self)@, time as int, entropy),
            election_inv(old(self)@) ==> election_inv(final(self)@),
    {
        self.reset_election_timer(time, entropy);
        self.reset_heartbeat_timer(time);
        self.role = Roles::Follower;
        proof {
            assert(self@ =~= election_reset(old(self)@, time as int, entropy));
        }
    }

    /// Replace the local self-report carried in future heartbeat responses.
    pub fn update_local_state(&mut self, local_state: LocalState)
        ensures
            final(self)@ == (ElectionV { local_state: local_state@, ..old(self)@ }),
            election_inv(old(self)@) ==> election_inv(final(self)@),
    {
        self.local_state = local_state;
        proof {
            assert(self@ =~= (ElectionV { local_state: local_state@, ..old(self)@ }));
        }
    }

    /// The role the node currently holds.
    pub fn role(&self) -> (r: Roles)
        ensures
            r == self@.role,
    {
        self.role
    }

    /// The node's current term.
    pub fn current_term(&self) -> (r: u32)
        ensures
            r == self@.current_term,
    {
        self.current_term
    }

    /// Whom this node has voted for in the current term, if anyone.
    pub fn voted_for(&self) -> (r: Option<NodeId>)
        ensures
            match r {
                Some(v) => self@.voted_for == Some(v@),
                None => self@.voted_for is None,
            },
    {
        self.voted_for
    }

    fn reset_election_timer(&mut self, time: i64, entropy: u32)
        requires
            time <= MAX_TIME,
        ensures
            final(self)@ == (ElectionV {
                election_timeout: jitter(entropy, time as int),
                ..old(self)@
            }),
    {
        self.election_timeout = (entropy % (ELECTION_TIMEOUT_SPAN as u32)) as i64
            + ELECTION_TIMEOUT_MIN + time;
        proof {
            assert(self@ =~= (ElectionV {
                election_timeout: jitter(entropy, time as int),
                ..old(self)@
            }));
        }
    }

    fn reset_heartbeat_timer(&mut self, time: i64)
        requires
            time <= MAX_TIME,
        ensures
            final(self)@ == (ElectionV {
                heartbeat_timeout: HEARTBEAT_INTERVAL as int + time as int,
                ..old(self)@
            }),
    {
        self.heartbeat_timeout = HEARTBEAT_INTERVAL + time;
        proof {
            assert(self@ =~= (ElectionV {
                heartbeat_timeout: HEARTBEAT_INTERVAL as int + time as int,
                ..old(self)@
            }));
        }
    }

    fn heartbeat_response_fail(&self, term: u32) -> (r: Directive)
        ensures
            r@ == DirectiveV::HeartbeatResponse(
                DirectiveHeartbeatResponseV {
                    uuid: self@.id,
                    term,
                    success: false,
                    iteration: None,
                    state: None,
                },
            ),
    {
        Directive::HeartbeatResponse(
            DirectiveHeartbeatResponse {
                uuid: self.id,
                term,
                success: false,
                iteration: None,
                state: None,
            },
        )
    }

    fn heartbeat_response_success(&self, term: u32, iteration: u32) -> (r: Directive)
        ensures
            r@ == DirectiveV::HeartbeatResponse(
                DirectiveHeartbeatResponseV {
                    uuid: self@.id,
                    term,
                    success: true,
                    iteration: Some(iteration),
                    state: Some(self@.local_state),
                },
            ),
    {
        Directive::HeartbeatResponse(
            DirectiveHeartbeatResponse {
                uuid: self.id,
                term,
                success: true,
                iteration: Some(iteration),
                state: Some(self.local_state),
            },
        )
    }

    fn vote_response(&self, term: u32, voted_for: NodeId, vote_granted: bool) -> (r: Directive)
        ensures
            r@ == DirectiveV::RequestVoteResponse(
                DirectiveRequestVoteResponseV {
                    uuid: self@.id,
                    term,
                    voted_for: voted_for@,
                    vote_granted,
                },
            ),
    {
        Directive::RequestVoteResponse(
            DirectiveRequestVoteResponse { uuid: self.id, term, voted_for, vote_granted },
        )
    }

    fn note_sender(&mut self, sender: &NodeId) -> (r: bool)
        requires
            table_wf(old(self)@.seen_hosts),
        ensures
            ({
                let (t2, ok) = check_sender(old(self)@.seen_hosts, old(self)@.id, sender@);
                &&& final(self)@ == (ElectionV { seen_hosts: t2, ..old(self)@ })
                &&& r == ok
                &&& table_wf(t2)
            }),
    {
        proof {
            lemma_table_insert_props(self@.seen_hosts, sender@, None);
        }
        let inserted = self.seen_hosts.insert(sender, None);
        let r = if !inserted {
            false
        } else {
            !sender.eq_id(&self.id)
        };
        proof {
            let (t2, ok) = check_sender(old(self)@.seen_hosts, old(self)@.id, sender@);
            assert(self@ =~= (ElectionV { seen_hosts: t2, ..old(self)@ }));
        }
        r
    }

    fn check_message(&mut self, message: &Option<Directive>) -> (r: bool)
        requires
            table_wf(old(self)@.seen_hosts),
        ensures
            ({
                let (t2, ok) = check_step(
                    old(self)@.seen_hosts,
                    old(self)@.id,
                    opt_directive_view(*message),
                );
                &&& final(self)@ == (ElectionV { seen_hosts: t2, ..old(self)@ })
                &&& r == ok
                &&& table_wf(t2)
            }),
    {
        let r = match message {
            Some(Directive::Heartbeat(m)) => self.note_sender(&m.uuid),
            Some(Directive::HeartbeatResponse(m)) => self.note_sender(&m.uuid),
            Some(Directive::RequestVote(m)) => self.note_sender(&m.uuid),
            Some(Directive::RequestVoteResponse(m)) => self.note_sender(&m.uuid),
            Some(_) => false,
            None => true,
        };
        proof {
            let (t2, ok) = check_step(
                old(self)@.seen_hosts,
                old(self)@.id,
                opt_directive_view(*message),
            );
            assert(self@ =~= (ElectionV { seen_hosts: t2, ..old(self)@ }));
        }
        r
    }

    fn check_global_state_update(&mut self) -> (r: Option<Directive>)
        requires
            table_wf(old(self)@.seen_hosts),
        ensures
            ({
                let (nl, out) = gsu_step(
                    old(self)@.id,
                    old(self)@.seen_hosts,
                    old(self)@.last_update,
                );
                &&& final(self)@ == (ElectionV { last_update: nl, ..old(self)@ })
                &&& opt_directive_view(r) == wrap_gsu(out)
            }),
    {
        let update = compute_global_state(&self.id, &self.seen_hosts);
        let same = match &self.last_update {
            Some(prev) => gsu_eq(&update, prev),
            None => false,
        };
        if !same {
            self.last_update = Some(update);
            proof {
                let (nl, out) = gsu_step(
                    old(self)@.id,
                    old(self)@.seen_hosts,
                    old(self)@.last_update,
                );
                assert(self@ =~= (ElectionV { last_update: nl, ..old(self)@ }));
            }
            Some(Directive::GlobalStateUpdate(update))
        } else {
            proof {
                assert(self@ =~= (ElectionV { ..old(self)@ }));
            }
            None
        }
    }

    /// Feed one inbound directive (or none, for the periodic tick) at `time`,
    /// with fresh `entropy` for timer jitter. Implements [`election_step`]
    /// exactly, and so enjoys every law proved about it.
    #[verifier::rlimit(100)]
    #[verifier::spinoff_prover]
    pub fn poll(&mut self, message: Option<Directive>, time: i64, entropy: u32) -> (r: Option<
        Directive,
    >)
        requires
            election_inv(old(self)@),
            time <= MAX_TIME,
        ensures
            election_inv(final(self)@),
            ({
                let (s2, out) = election_step(
                    old(self)@,
                    opt_directive_view(message),
                    time as int,
                    entropy,
                );
                final(self)@ == s2 && opt_directive_view(r) == out
            }),
    {
        let ghost s0 = old(self)@;
        let ghost m_v = opt_directive_view(message);
        proof {
            lemma_inv_step(s0, m_v, time as int, entropy);
        }
        let ok = self.check_message(&message);
        if !ok {
            return None;
        }
        let ls = self.local_state;
        let _self_noted = self.seen_hosts.insert(&self.id, Some(ls));
        proof {
            let t1 = check_step(s0.seen_hosts, s0.id, m_v).0;
            let s1 = ElectionV { seen_hosts: upsert(t1, s0.id, Some(s0.local_state)), ..s0 };
            assert(self@ =~= s1);
        }
        match message {
            Some(Directive::Heartbeat(hb)) => {
                if hb.term < self.current_term {
                    Some(self.heartbeat_response_fail(self.current_term))
                } else {
                    if hb.term > self.current_term || self.role == Roles::Candidate {
                        self.current_term = hb.term;
                        self.role = Roles::Follower;
                        self.voted_for = Some(hb.uuid);
                    } else {
                        self.role = Roles::Follower;
                    }
                    self.reset_election_timer(time, entropy);
                    Some(self.heartbeat_response_success(self.current_term, hb.iteration))
                }
            },
            Some(Directive::RequestVote(rv)) => {
                if rv.term < self.current_term {
                    Some(self.vote_response(self.current_term, rv.uuid, false))
                } else {
                    if rv.term > self.current_term {
                        self.current_term = rv.term;
                        self.role = Roles::Follower;
                        self.voted_for = Some(rv.uuid);
                    }
                    let grant = match &self.voted_for {
                        None => true,
                        Some(v) => v.eq_id(&rv.uuid),
                    };
                    if grant {
                        self.voted_for = Some(rv.uuid);
                    }
                    Some(self.vote_response(rv.term, rv.uuid, grant))
                }
            },
            _ => {
                match self.role {
                    Roles::Follower => {
                        if time > self.election_timeout && self.current_term < u32::MAX {
                            self.role = Roles::Candidate;
                            self.current_term = self.current_term + 1;
                            self.voted_for = Some(self.id);
                            self.seen_hosts.clear();
                            let ls2 = self.local_state;
                            let _restarted = self.seen_hosts.insert(&self.id, Some(ls2));
                            proof {
                                assert(self@.seen_hosts =~= seq![(s0.id, Some(s0.local_state))]);
                            }
                            let mut g: Vec<NodeId> = Vec::new();
                            g.push(self.id);
                            self.granters = g;
                            proof {
                                assert(self@.granters =~= seq![s0.id]);
                            }
                            self.reset_election_timer(time, entropy);
                            self.reset_heartbeat_timer(time);
                            Some(
                                Directive::RequestVote(
                                    DirectiveRequestVote {
                                        uuid: self.id,
                                        term: self.current_term,
                                    },
                                ),
                            )
                        } else {
                            None
                        }
                    },
                    Roles::Candidate => {
                        match message {
                            Some(Directive::RequestVoteResponse(vr)) => {
                                if vr.term == self.current_term && vr.voted_for.eq_id(&self.id) {
                                    if vr.vote_granted {
                                        self.note_granter(&vr.uuid);
                                    } else {
                                        self.role = Roles::Follower;
                                    }
                                }
                            },
                            _ => {},
                        }
                        if time > self.heartbeat_timeout {
                            let votes = self.granters.len();
                            let hosts = self.seen_hosts.len();
                            if 2 * (votes as u128) > (hosts as u128) {
                                self.role = Roles::Leader;
                                self.iteration = 0;
                            } else {
                                self.role = Roles::Follower;
                            }
                        }
                        None
                    },
                    Roles::Leader => {
                        let hbr_fields: Option<(NodeId, u32, LocalState)> = match message {
                            Some(Directive::HeartbeatResponse(hr)) => match (
                                hr.iteration,
                                hr.state,
                            ) {
                                (Some(it), Some(st)) => if hr.success {
                                    Some((hr.uuid, it, st))
                                } else {
                                    None
                                },
                                _ => None,
                            },
                            _ => None,
                        };
                        match hbr_fields {
                            Some((sender, it, st)) => {
                                if it == self.iteration {
                                    let _reported = self.seen_hosts.insert(&sender, Some(st));
                                    let seen_now = self.seen_hosts.len();
                                    let matched = match self.last_seen_hosts {
                                        Some(x) => x == seen_now,
                                        None => false,
                                    };
                                    if matched {
                                        let out = self.check_global_state_update();
                                        self.last_seen_hosts = None;
                                        out
                                    } else {
                                        None
                                    }
                                } else {
                                    None
                                }
                            },
                            None => {
                                if time > self.heartbeat_timeout {
                                    let mut early: Option<Directive> = None;
                                    if self.last_seen_hosts.is_some() {
                                        early = self.check_global_state_update();
                                    }
                                    if early.is_some() {
                                        early
                                    } else {
                                        self.reset_heartbeat_timer(time);
                                        self.last_seen_hosts = Some(self.seen_hosts.len());
                                        self.seen_hosts.clear();
                                        let ls3 = self.local_state;
                                        let _rearmed = self.seen_hosts.insert(&self.id, Some(ls3));
                                        proof {
                                            assert(self@.seen_hosts =~= seq![
                                                (s0.id, Some(s0.local_state)),
                                            ]);
                                        }
                                        self.iteration = if self.iteration < u32::MAX {
                                            self.iteration + 1
                                        } else {
                                            self.iteration
                                        };
                                        Some(
                                            Directive::Heartbeat(
                                                DirectiveHeartbeat {
                                                    uuid: self.id,
                                                    term: self.current_term,
                                                    iteration: self.iteration,
                                                },
                                            ),
                                        )
                                    }
                                } else {
                                    None
                                }
                            },
                        }
                    },
                }
            },
        }
    }

    fn note_granter(&mut self, u: &NodeId)
        ensures
            final(self)@ == (ElectionV {
                granters: add_granter(old(self)@.granters, u@),
                ..old(self)@
            }),
    {
        let ghost g0 = self@.granters;
        let n = self.granters.len();
        let mut i: usize = 0;
        while i < n
            invariant
                i <= n,
                self@ == old(self)@,
                g0 == self@.granters,
                n == self.granters@.len(),
                forall|j: int| 0 <= j < i ==> g0[j] != u@,
            decreases n - i,
        {
            let hit = self.granters[i].eq_id(u);
            if hit {
                proof {
                    assert(g0[i as int] == u@);
                    assert(add_granter(g0, u@) == g0);
                    assert(self@ =~= (ElectionV { granters: add_granter(g0, u@), ..old(self)@ }));
                }
                return ;
            }
            i += 1;
        }
        proof {
            assert(!(exists|j: int| 0 <= j < g0.len() && g0[j] == u@));
        }
        self.granters.push(*u);
        proof {
            assert(self@.granters =~= g0.push(u@));
            assert(self@ =~= (ElectionV { granters: add_granter(g0, u@), ..old(self)@ }));
        }
    }
}

} // verus!
