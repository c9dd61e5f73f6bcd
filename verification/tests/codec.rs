use apiary_core::codec::{MAX_DIRECTIVE_LEN, decode_directive, encode_directive};
use apiary_core::{
    Directive, DirectiveGlobalStateUpdate, DirectiveHalt, DirectiveHeartbeat,
    DirectiveHeartbeatResponse, DirectiveRequestVote, DirectiveRequestVoteResponse,
    DirectiveSetInputJack, DirectiveSetOutputJack, HeldInputJack, HeldOutputJack, LocalState,
    NodeId, PatchConnection, PatchState,
};

fn id(name: &str) -> NodeId {
    NodeId::from_bytes(name.as_bytes()).unwrap()
}

fn round_trip(d: Directive) {
    let bytes = encode_directive(&d);
    assert!(bytes.len() <= MAX_DIRECTIVE_LEN);
    let back = decode_directive(&bytes).unwrap();
    assert_eq!(d, back);
}

fn sample_input_jack() -> HeldInputJack {
    HeldInputJack { uuid: id("module-b"), id: 0 }
}

fn sample_output_jack() -> HeldOutputJack {
    HeldOutputJack { uuid: id("module-a"), id: 0, color: 7, addr: [239, 1, 2, 3] }
}

fn sample_connection() -> PatchConnection {
    PatchConnection {
        input_uuid: id("module-b"),
        input_jack_id: 0,
        output_uuid: id("module-a"),
        output_jack_id: 0,
    }
}

#[test]
fn round_trip_set_input_jack() {
    round_trip(Directive::SetInputJack(DirectiveSetInputJack {
        uuid: id("leader"),
        source: sample_output_jack(),
        connection: sample_connection(),
    }));
}

#[test]
fn round_trip_set_output_jack() {
    round_trip(Directive::SetOutputJack(DirectiveSetOutputJack {
        uuid: id("leader"),
        source: sample_input_jack(),
        connection: sample_connection(),
    }));
}

#[test]
fn round_trip_halt() {
    round_trip(Directive::Halt(DirectiveHalt { uuid: id("GLOBAL") }));
}

#[test]
fn round_trip_heartbeat() {
    round_trip(Directive::Heartbeat(DirectiveHeartbeat {
        uuid: id("leader"),
        term: 3,
        iteration: 99,
    }));
}

#[test]
fn round_trip_heartbeat_response() {
    round_trip(Directive::HeartbeatResponse(DirectiveHeartbeatResponse {
        uuid: id("module-b"),
        term: 3,
        success: true,
        iteration: Some(99),
        state: Some(LocalState {
            num_held_inputs: 1,
            num_held_outputs: 0,
            held_input: Some(sample_input_jack()),
            held_output: None,
        }),
    }));
    round_trip(Directive::HeartbeatResponse(DirectiveHeartbeatResponse {
        uuid: id("module-b"),
        term: 4,
        success: false,
        iteration: None,
        state: None,
    }));
}

#[test]
fn round_trip_request_vote() {
    round_trip(Directive::RequestVote(DirectiveRequestVote { uuid: id("module-c"), term: 17 }));
}

#[test]
fn round_trip_request_vote_response() {
    round_trip(Directive::RequestVoteResponse(DirectiveRequestVoteResponse {
        uuid: id("module-b"),
        term: 17,
        voted_for: id("module-c"),
        vote_granted: true,
    }));
}

#[test]
fn round_trip_global_state_update() {
    round_trip(Directive::GlobalStateUpdate(DirectiveGlobalStateUpdate {
        uuid: id("leader"),
        patch_state: PatchState::PatchToggled,
        input: Some(sample_input_jack()),
        output: Some(sample_output_jack()),
    }));
    round_trip(Directive::GlobalStateUpdate(DirectiveGlobalStateUpdate {
        uuid: id("leader"),
        patch_state: PatchState::Idle,
        input: None,
        output: None,
    }));
    round_trip(Directive::GlobalStateUpdate(DirectiveGlobalStateUpdate {
        uuid: id("leader"),
        patch_state: PatchState::Blocked,
        input: None,
        output: None,
    }));
    round_trip(Directive::GlobalStateUpdate(DirectiveGlobalStateUpdate {
        uuid: id("leader"),
        patch_state: PatchState::PatchEnabled,
        input: Some(sample_input_jack()),
        output: None,
    }));
}

#[test]
fn round_trip_longest_id() {
    let long = [b'x'; 48];
    let uuid = NodeId::from_bytes(&long).unwrap();
    round_trip(Directive::Heartbeat(DirectiveHeartbeat { uuid, term: u32::MAX, iteration: 0 }));
}

#[test]
fn decode_rejects_garbage() {
    assert!(decode_directive(&[]).is_none());
    assert!(decode_directive(&[8u8]).is_none());
    assert!(decode_directive(&[255u8, 0, 0]).is_none());
}

#[test]
fn decode_rejects_trailing_bytes() {
    let d = Directive::Halt(DirectiveHalt { uuid: id("GLOBAL") });
    let mut bytes = encode_directive(&d);
    bytes.push(0);
    assert!(decode_directive(&bytes).is_none());
}

#[test]
fn decode_rejects_truncation() {
    let d = Directive::Heartbeat(DirectiveHeartbeat { uuid: id("leader"), term: 1, iteration: 2 });
    let bytes = encode_directive(&d);
    assert!(decode_directive(&bytes[..bytes.len() - 1]).is_none());
}

#[test]
fn decode_rejects_oversized_id() {
    // tag Heartbeat, then an id whose declared length exceeds the bound
    let mut bytes = vec![3u8, 49u8];
    for _ in 0..49 {
        bytes.push(7u8);
    }
    for _ in 0..8 {
        bytes.push(0u8);
    }
    assert!(decode_directive(&bytes).is_none());
}
