//! Control-plane data model.
//!
//! The directive protocol is the closed set of control messages exchanged on
//! the shared control channel: vote requests and responses, heartbeats and
//! heartbeat responses (carrying a node's [`LocalState`] self-report), the
//! global patch decision, and halt. Every message carries the sender's
//! [`NodeId`].
//!
//! Each executable type has a mathematical view (`@`) used by the contracts;
//! the view of a [`Directive`] is a [`DirectiveV`].

use vstd::prelude::*;

use crate::id::NodeId;

verus! {

/// The one network-wide patch condition.
///
/// `Idle`: nothing is held. `PatchEnabled`: exactly one jack is held on one
/// side and none on the other. `PatchToggled`: exactly one input and one
/// output are held, so a connection is instructed. `Blocked`: more than one
/// jack is held on some side.
#[derive(Clone, Copy, Debug, PartialEq, Eq, Structural)]
pub enum PatchState {
    Idle,
    PatchEnabled,
    PatchToggled,
    Blocked,
}

/// An input jack that its owner currently holds.
#[derive(Clone, Copy, Debug, PartialEq)]
pub struct HeldInputJack {
    pub uuid: NodeId,
    pub id: u32,
}

/// View of a [`HeldInputJack`].
#[verifier::ext_equal]
pub struct HeldInputJackV {
    pub uuid: Seq<u8>,
    pub id: u32,
}

impl View for HeldInputJack {
    type V = HeldInputJackV;

    open spec fn view(&self) -> HeldInputJackV {
        HeldInputJackV { uuid: self.uuid@, id: self.id }
    }
}

/// An output jack that its owner currently holds, with its display color and
/// the 4-byte multicast group address it publishes audio to.
#[derive(Clone, Copy, Debug, PartialEq)]
pub struct HeldOutputJack {
    pub uuid: NodeId,
    pub id: u32,
    pub color: u16,
    pub addr: [u8; 4],
}

/// View of a [`HeldOutputJack`].
#[verifier::ext_equal]
pub struct HeldOutputJackV {
    pub uuid: Seq<u8>,
    pub id: u32,
    pub color: u16,
    pub addr: Seq<u8>,
}

impl View for HeldOutputJack {
    type V = HeldOutputJackV;

    open spec fn view(&self) -> HeldOutputJackV {
        HeldOutputJackV { uuid: self.uuid@, id: self.id, color: self.color, addr: self.addr@ }
    }
}

/// A node's self-report: how many jacks it holds on each side, plus the one
/// concrete jack per side when that side's count is exactly 1.
#[derive(Clone, Copy, Debug, PartialEq)]
pub struct LocalState {
    pub num_held_inputs: u8,
    pub num_held_outputs: u8,
    pub held_input: Option<HeldInputJack>,
    pub held_output: Option<HeldOutputJack>,
}

/// View of a [`LocalState`].
#[verifier::ext_equal]
pub struct LocalStateV {
    pub num_held_inputs: u8,
    pub num_held_outputs: u8,
    pub held_input: Option<HeldInputJackV>,
    pub held_output: Option<HeldOutputJackV>,
}

impl View for LocalState {
    type V = LocalStateV;

    open spec fn view(&self) -> LocalStateV {
        LocalStateV {
            num_held_inputs: self.num_held_inputs,
            num_held_outputs: self.num_held_outputs,
            held_input: match self.held_input {
                Some(j) => Some(j@),
                None => None,
            },
            held_output: match self.held_output {
                Some(j) => Some(j@),
                None => None,
            },
        }
    }
}

impl LocalStateV {
    /// The single-jack fields are populated exactly when the matching count is 1.
    pub open spec fn wf(self) -> bool {
        &&& (self.held_input is Some <==> self.num_held_inputs == 1)
        &&& (self.held_output is Some <==> self.num_held_outputs == 1)
    }
}

impl LocalState {
    /// The report of a node that holds nothing.
    pub fn empty() -> (r: LocalState)
        ensures
            r@ == empty_local_state(),
    {
        LocalState { num_held_inputs: 0, num_held_outputs: 0, held_input: None, held_output: None }
    }
}

/// View of the all-idle self-report.
pub open spec fn empty_local_state() -> LocalStateV {
    LocalStateV { num_held_inputs: 0, num_held_outputs: 0, held_input: None, held_output: None }
}

/// View of an optional held input jack.
pub open spec fn opt_input_view(o: Option<HeldInputJack>) -> Option<HeldInputJackV> {
    match o {
        Some(j) => Some(j@),
        None => None,
    }
}

/// View of an optional held output jack.
pub open spec fn opt_output_view(o: Option<HeldOutputJack>) -> Option<HeldOutputJackV> {
    match o {
        Some(j) => Some(j@),
        None => None,
    }
}

/// View of an optional directive.
pub open spec fn opt_directive_view(o: Option<Directive>) -> Option<DirectiveV> {
    match o {
        Some(d) => Some(d@),
        None => None,
    }
}

/// View of an optional local state.
pub open spec fn opt_state_view(o: Option<LocalState>) -> Option<LocalStateV> {
    match o {
        Some(s) => Some(s@),
        None => None,
    }
}

/// One established input-to-output pairing, named by both endpoints.
#[derive(Clone, Copy, Debug, PartialEq)]
pub struct PatchConnection {
    pub input_uuid: NodeId,
    pub input_jack_id: u32,
    pub output_uuid: NodeId,
    pub output_jack_id: u32,
}

/// View of a [`PatchConnection`].
#[verifier::ext_equal]
pub struct PatchConnectionV {
    pub input_uuid: Seq<u8>,
    pub input_jack_id: u32,
    pub output_uuid: Seq<u8>,
    pub output_jack_id: u32,
}

impl View for PatchConnection {
    type V = PatchConnectionV;

    open spec fn view(&self) -> PatchConnectionV {
        PatchConnectionV {
            input_uuid: self.input_uuid@,
            input_jack_id: self.input_jack_id,
            output_uuid: self.output_uuid@,
            output_jack_id: self.output_jack_id,
        }
    }
}

/// Instruct one input jack to listen to the given output.
#[derive(Clone, Copy, Debug, PartialEq)]
pub struct DirectiveSetInputJack {
    pub uuid: NodeId,
    pub source: HeldOutputJack,
    pub connection: PatchConnection,
}

/// View of a [`DirectiveSetInputJack`].
#[verifier::ext_equal]
pub struct DirectiveSetInputJackV {
    pub uuid: Seq<u8>,
    pub source: HeldOutputJackV,
    pub connection: PatchConnectionV,
}

impl View for DirectiveSetInputJack {
    type V = DirectiveSetInputJackV;

    open spec fn view(&self) -> DirectiveSetInputJackV {
        DirectiveSetInputJackV {
            uuid: self.uuid@,
            source: self.source@,
            connection: self.connection@,
        }
    }
}

/// Instruct one output jack to publish to the given input.
#[derive(Clone, Copy, Debug, PartialEq)]
pub struct DirectiveSetOutputJack {
    pub uuid: NodeId,
    pub source: HeldInputJack,
    pub connection: PatchConnection,
}

/// View of a [`DirectiveSetOutputJack`].
#[verifier::ext_equal]
pub struct DirectiveSetOutputJackV {
    pub uuid: Seq<u8>,
    pub source: HeldInputJackV,
    pub connection: PatchConnectionV,
}

impl View for DirectiveSetOutputJack {
    type V = DirectiveSetOutputJackV;

    open spec fn view(&self) -> DirectiveSetOutputJackV {
        DirectiveSetOutputJackV {
            uuid: self.uuid@,
            source: self.source@,
            connection: self.connection@,
        }
    }
}

/// Advisory request that every node stop.
#[derive(Clone, Copy, Debug, PartialEq)]
pub struct DirectiveHalt {
    pub uuid: NodeId,
}

/// View of a [`DirectiveHalt`].
#[verifier::ext_equal]
pub struct DirectiveHaltV {
    pub uuid: Seq<u8>,
}

impl View for DirectiveHalt {
    type V = DirectiveHaltV;

    open spec fn view(&self) -> DirectiveHaltV {
        DirectiveHaltV { uuid: self.uuid@ }
    }
}

/// Leader-to-followers keepalive, doubling as a local-state poll.
#[derive(Clone, Copy, Debug, PartialEq)]
pub struct DirectiveHeartbeat {
    pub uuid: NodeId,
    pub term: u32,
    pub iteration: u32,
}

/// View of a [`DirectiveHeartbeat`].
#[verifier::ext_equal]
pub struct DirectiveHeartbeatV {
    pub uuid: Seq<u8>,
    pub term: u32,
    pub iteration: u32,
}

impl View for DirectiveHeartbeat {
    type V = DirectiveHeartbeatV;

    open spec fn view(&self) -> DirectiveHeartbeatV {
        DirectiveHeartbeatV { uuid: self.uuid@, term: self.term, iteration: self.iteration }
    }
}

/// Reply to a heartbeat; a successful one carries the responder's
/// [`LocalState`] and echoes the heartbeat's iteration number.
#[derive(Clone, Copy, Debug, PartialEq)]
pub struct DirectiveHeartbeatResponse {
    pub uuid: NodeId,
    pub term: u32,
    pub success: bool,
    pub iteration: Option<u32>,
    pub state: Option<LocalState>,
}

/// View of a [`DirectiveHeartbeatResponse`].
#[verifier::ext_equal]
pub struct DirectiveHeartbeatResponseV {
    pub uuid: Seq<u8>,
    pub term: u32,
    pub success: bool,
    pub iteration: Option<u32>,
    pub state: Option<LocalStateV>,
}

impl View for DirectiveHeartbeatResponse {
    type V = DirectiveHeartbeatResponseV;

    open spec fn view(&self) -> DirectiveHeartbeatResponseV {
        DirectiveHeartbeatResponseV {
            uuid: self.uuid@,
            term: self.term,
            success: self.success,
            iteration: self.iteration,
            state: match self.state {
                Some(s) => Some(s@),
                None => None,
            },
        }
    }
}

/// A candidate's request for votes in the given term.
#[derive(Clone, Copy, Debug, PartialEq)]
pub struct DirectiveRequestVote {
    pub uuid: NodeId,
    pub term: u32,
}

/// View of a [`DirectiveRequestVote`].
#[verifier::ext_equal]
pub struct DirectiveRequestVoteV {
    pub uuid: Seq<u8>,
    pub term: u32,
}

impl View for DirectiveRequestVote {
    type V = DirectiveRequestVoteV;

    open spec fn view(&self) -> DirectiveRequestVoteV {
        DirectiveRequestVoteV { uuid: self.uuid@, term: self.term }
    }
}

/// A voter's answer to a vote request, naming the candidate it concerns.
#[derive(Clone, Copy, Debug, PartialEq)]
pub struct DirectiveRequestVoteResponse {
    pub uuid: NodeId,
    pub term: u32,
    pub voted_for: NodeId,
    pub vote_granted: bool,
}

/// View of a [`DirectiveRequestVoteResponse`].
#[verifier::ext_equal]
pub struct DirectiveRequestVoteResponseV {
    pub uuid: Seq<u8>,
    pub term: u32,
    pub voted_for: Seq<u8>,
    pub vote_granted: bool,
}

impl View for DirectiveRequestVoteResponse {
    type V = DirectiveRequestVoteResponseV;

    open spec fn view(&self) -> DirectiveRequestVoteResponseV {
        DirectiveRequestVoteResponseV {
            uuid: self.uuid@,
            term: self.term,
            voted_for: self.voted_for@,
            vote_granted: self.vote_granted,
        }
    }
}

/// The leader's aggregated network-wide patch decision.
#[derive(Clone, Copy, Debug, PartialEq)]
pub struct DirectiveGlobalStateUpdate {
    pub uuid: NodeId,
    pub patch_state: PatchState,
    pub input: Option<HeldInputJack>,
    pub output: Option<HeldOutputJack>,
}

/// View of a [`DirectiveGlobalStateUpdate`].
#[verifier::ext_equal]
pub struct DirectiveGlobalStateUpdateV {
    pub uuid: Seq<u8>,
    pub patch_state: PatchState,
    pub input: Option<HeldInputJackV>,
    pub output: Option<HeldOutputJackV>,
}

impl View for DirectiveGlobalStateUpdate {
    type V = DirectiveGlobalStateUpdateV;

    open spec fn view(&self) -> DirectiveGlobalStateUpdateV {
        DirectiveGlobalStateUpdateV {
            uuid: self.uuid@,
            patch_state: self.patch_state,
            input: match self.input {
                Some(j) => Some(j@),
                None => None,
            },
            output: match self.output {
                Some(j) => Some(j@),
                None => None,
            },
        }
    }
}

/// The closed set of control messages.
#[derive(Clone, Copy, Debug, PartialEq)]
pub enum Directive {
    SetInputJack(DirectiveSetInputJack),
    SetOutputJack(DirectiveSetOutputJack),
    Halt(DirectiveHalt),
    Heartbeat(DirectiveHeartbeat),
    HeartbeatResponse(DirectiveHeartbeatResponse),
    RequestVote(DirectiveRequestVote),
    RequestVoteResponse(DirectiveRequestVoteResponse),
    GlobalStateUpdate(DirectiveGlobalStateUpdate),
}

/// View of a [`Directive`].
#[verifier::ext_equal]
pub enum DirectiveV {
    SetInputJack(DirectiveSetInputJackV),
    SetOutputJack(DirectiveSetOutputJackV),
    Halt(DirectiveHaltV),
    Heartbeat(DirectiveHeartbeatV),
    HeartbeatResponse(DirectiveHeartbeatResponseV),
    RequestVote(DirectiveRequestVoteV),
    RequestVoteResponse(DirectiveRequestVoteResponseV),
    GlobalStateUpdate(DirectiveGlobalStateUpdateV),
}

impl View for Directive {
    type V = DirectiveV;

    open spec fn view(&self) -> DirectiveV {
        match *self {
            Directive::SetInputJack(d) => DirectiveV::SetInputJack(d@),
            Directive::SetOutputJack(d) => DirectiveV::SetOutputJack(d@),
            Directive::Halt(d) => DirectiveV::Halt(d@),
            Directive::Heartbeat(d) => DirectiveV::Heartbeat(d@),
            Directive::HeartbeatResponse(d) => DirectiveV::HeartbeatResponse(d@),
            Directive::RequestVote(d) => DirectiveV::RequestVote(d@),
            Directive::RequestVoteResponse(d) => DirectiveV::RequestVoteResponse(d@),
            Directive::GlobalStateUpdate(d) => DirectiveV::GlobalStateUpdate(d@),
        }
    }
}

/// Value equality on held input jacks.
pub fn input_jack_eq(a: &HeldInputJack, b: &HeldInputJack) -> (r: bool)
    ensures
        r == (a@ == b@),
{
    let r = a.uuid.eq_id(&b.uuid) && a.id == b.id;
    proof {
        if r {
            assert(a@ =~= b@);
        }
    }
    r
}

/// Value equality on held output jacks.
pub fn output_jack_eq(a: &HeldOutputJack, b: &HeldOutputJack) -> (r: bool)
    ensures
        r == (a@ == b@),
{
    let r = a.uuid.eq_id(&b.uuid) && a.id == b.id && a.color == b.color && a.addr[0] == b.addr[0]
        && a.addr[1] == b.addr[1] && a.addr[2] == b.addr[2] && a.addr[3] == b.addr[3];
    proof {
        if r {
            assert(a@.addr =~= b@.addr);
            assert(a@ =~= b@);
        } else {
            assert(a@.addr.len() == 4 && b@.addr.len() == 4);
        }
    }
    r
}

/// Value equality on global-state-update directives.
pub fn gsu_eq(a: &DirectiveGlobalStateUpdate, b: &DirectiveGlobalStateUpdate) -> (r: bool)
    ensures
        r == (a@ == b@),
{
    let uuid_ok = a.uuid.eq_id(&b.uuid);
    let state_ok = a.patch_state == b.patch_state;
    let input_ok = match (&a.input, &b.input) {
        (None, None) => true,
        (Some(x), Some(y)) => input_jack_eq(x, y),
        _ => false,
    };
    let output_ok = match (&a.output, &b.output) {
        (None, None) => true,
        (Some(x), Some(y)) => output_jack_eq(x, y),
        _ => false,
    };
    let r = uuid_ok && state_ok && input_ok && output_ok;
    proof {
        if r {
            assert(a@ =~= b@);
        }
    }
    r
}

} // verus!
