//! Distributed coordination core for networked audio modules.
//!
//! Many independent audio-processing nodes on a shared multicast-style
//! network agree, without a central server, on which single virtual patch
//! cable is currently active. Each node runs a [`module::Module`], which
//! drives a Raft-flavoured leader election ([`leader_election::LeaderElection`]),
//! reports its locally held jacks, and reacts to the elected leader's
//! aggregated patch decision.
//!
//! Transports, DSP, and process entry points are external collaborators;
//! this crate holds the protocol data model, the wire codec, the election
//! and aggregation state machines, and the per-node coordinator, each with
//! a verified contract.

pub mod apa102;
pub mod audio;
pub mod codec;
pub mod hosts;
pub mod id;
pub mod leader_election;
pub mod module;
pub mod protocol;

pub use audio::{AudioFrame, AudioPacket, fpmul, midi_note_to_voct};
pub use id::NodeId;
pub use leader_election::{LeaderElection, Roles};
pub use module::{
    Error, InputJackHandle, JackColor, Module, Network, OutputJackHandle, PollUpdate, ProcessBlock,
};
pub use protocol::{
    Directive, DirectiveGlobalStateUpdate, DirectiveHalt, DirectiveHeartbeat,
    DirectiveHeartbeatResponse, DirectiveRequestVote, DirectiveRequestVoteResponse,
    DirectiveSetInputJack, DirectiveSetOutputJack, HeldInputJack, HeldOutputJack, LocalState,
    PatchConnection, PatchState,
};
