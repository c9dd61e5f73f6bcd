//! Wire codec for the directive protocol.
//!
//! Directives travel in single datagrams on the control channel. The format
//! is a fixed, deterministic byte layout: little-endian integers, a one-byte
//! tag per enum, length-prefixed node identifiers, and a one-byte presence
//! flag per optional field. The contract the rest of the system relies on is
//! stated and proved here: decoding inverts encoding for every directive
//! ([`lemma_directive_round_trip`]), and every encoded directive fits one
//! datagram of [`MAX_DIRECTIVE_LEN`] bytes.

use vstd::prelude::*;

use crate::id::NodeId;
use crate::protocol::{
    Directive, DirectiveGlobalStateUpdate, DirectiveGlobalStateUpdateV, DirectiveHalt,
    DirectiveHaltV, DirectiveHeartbeat, DirectiveHeartbeatResponse, DirectiveHeartbeatResponseV,
    DirectiveHeartbeatV, DirectiveRequestVote, DirectiveRequestVoteResponse,
    DirectiveRequestVoteResponseV, DirectiveRequestVoteV, DirectiveSetInputJack,
    DirectiveSetInputJackV, DirectiveSetOutputJack, DirectiveSetOutputJackV, DirectiveV,
    HeldInputJack, HeldInputJackV, HeldOutputJack, HeldOutputJackV, LocalState, LocalStateV,
    PatchConnection, PatchConnectionV, PatchState, opt_input_view, opt_output_view, opt_state_view,
};

verus! {

/// Every encoded directive fits in this many bytes.
pub const MAX_DIRECTIVE_LEN: usize = 2048;

// ---------------------------------------------------------------------------
// Specification: encoders
// ---------------------------------------------------------------------------

/// A directive view whose identifier fields all fit the wire format.
pub open spec fn wf_id(s: Seq<u8>) -> bool {
    s.len() <= 48
}

pub open spec fn enc_u16(x: u16) -> Seq<u8> {
    seq![(x as int % 256) as u8, (x as int / 256) as u8]
}

pub open spec fn enc_u32(x: u32) -> Seq<u8> {
    enc_u16((x as int % 0x10000) as u16) + enc_u16((x as int / 0x10000) as u16)
}

pub open spec fn enc_bool(x: bool) -> Seq<u8> {
    if x {
        seq![1u8]
    } else {
        seq![0u8]
    }
}

pub open spec fn enc_id(s: Seq<u8>) -> Seq<u8> {
    seq![s.len() as u8] + s
}

pub open spec fn enc_patch_state(p: PatchState) -> Seq<u8> {
    match p {
        PatchState::Idle => seq![0u8],
        PatchState::PatchEnabled => seq![1u8],
        PatchState::PatchToggled => seq![2u8],
        PatchState::Blocked => seq![3u8],
    }
}

pub open spec fn enc_addr(a: Seq<u8>) -> Seq<u8> {
    seq![a[0], a[1], a[2], a[3]]
}

pub open spec fn enc_input_jack(j: HeldInputJackV) -> Seq<u8> {
    enc_id(j.uuid) + enc_u32(j.id)
}

pub open spec fn enc_output_jack(j: HeldOutputJackV) -> Seq<u8> {
    enc_id(j.uuid) + enc_u32(j.id) + enc_u16(j.color) + enc_addr(j.addr)
}

pub open spec fn enc_opt_u32(o: Option<u32>) -> Seq<u8> {
    match o {
        None => seq![0u8],
        Some(x) => seq![1u8] + enc_u32(x),
    }
}

pub open spec fn enc_opt_input(o: Option<HeldInputJackV>) -> Seq<u8> {
    match o {
        None => seq![0u8],
        Some(j) => seq![1u8] + enc_input_jack(j),
    }
}

pub open spec fn enc_opt_output(o: Option<HeldOutputJackV>) -> Seq<u8> {
    match o {
        None => seq![0u8],
        Some(j) => seq![1u8] + enc_output_jack(j),
    }
}

pub open spec fn enc_local_state(s: LocalStateV) -> Seq<u8> {
    seq![s.num_held_inputs, s.num_held_outputs] + enc_opt_input(s.held_input) + enc_opt_output(
        s.held_output,
    )
}

pub open spec fn enc_opt_state(o: Option<LocalStateV>) -> Seq<u8> {
    match o {
        None => seq![0u8],
        Some(s) => seq![1u8] + enc_local_state(s),
    }
}

pub open spec fn enc_connection(c: PatchConnectionV) -> Seq<u8> {
    enc_id(c.input_uuid) + enc_u32(c.input_jack_id) + enc_id(c.output_uuid) + enc_u32(
        c.output_jack_id,
    )
}

pub open spec fn enc_directive(d: DirectiveV) -> Seq<u8> {
    match d {
        DirectiveV::SetInputJack(m) => seq![0u8] + enc_id(m.uuid) + enc_output_jack(m.source)
            + enc_connection(m.connection),
        DirectiveV::SetOutputJack(m) => seq![1u8] + enc_id(m.uuid) + enc_input_jack(m.source)
            + enc_connection(m.connection),
        DirectiveV::Halt(m) => seq![2u8] + enc_id(m.uuid),
        DirectiveV::Heartbeat(m) => seq![3u8] + enc_id(m.uuid) + enc_u32(m.term) + enc_u32(
            m.iteration,
        ),
        DirectiveV::HeartbeatResponse(m) => seq![4u8] + enc_id(m.uuid) + enc_u32(m.term)
            + enc_bool(m.success) + enc_opt_u32(m.iteration) + enc_opt_state(m.state),
        DirectiveV::RequestVote(m) => seq![5u8] + enc_id(m.uuid) + enc_u32(m.term),
        DirectiveV::RequestVoteResponse(m) => seq![6u8] + enc_id(m.uuid) + enc_u32(m.term)
            + enc_id(m.voted_for) + enc_bool(m.vote_granted),
        DirectiveV::GlobalStateUpdate(m) => seq![7u8] + enc_id(m.uuid) + enc_patch_state(
            m.patch_state,
        ) + enc_opt_input(m.input) + enc_opt_output(m.output),
    }
}

// ---------------------------------------------------------------------------
// Specification: decoders
// ---------------------------------------------------------------------------

pub open spec fn dec_u8(b: Seq<u8>, i: int) -> Option<(u8, int)> {
    if 0 <= i && i + 1 <= b.len() {
        Some((b[i], i + 1))
    } else {
        None
    }
}

pub open spec fn dec_u16(b: Seq<u8>, i: int) -> Option<(u16, int)> {
    if 0 <= i && i + 2 <= b.len() {
        Some(((b[i] as int + 256 * (b[i + 1] as int)) as u16, i + 2))
    } else {
        None
    }
}

pub open spec fn dec_u32(b: Seq<u8>, i: int) -> Option<(u32, int)> {
    match dec_u16(b, i) {
        None => None,
        Some((lo, j)) => match dec_u16(b, j) {
            None => None,
            Some((hi, k)) => Some(((lo as int + 0x10000 * (hi as int)) as u32, k)),
        },
    }
}

pub open spec fn dec_bool(b: Seq<u8>, i: int) -> Option<(bool, int)> {
    match dec_u8(b, i) {
        Some((0u8, j)) => Some((false, j)),
        Some((1u8, j)) => Some((true, j)),
        _ => None,
    }
}

pub open spec fn dec_id(b: Seq<u8>, i: int) -> Option<(Seq<u8>, int)> {
    match dec_u8(b, i) {
        None => None,
        Some((n, j)) => if n <= 48 && j + n <= b.len() {
            Some((b.subrange(j, j + n), j + n))
        } else {
            None
        },
    }
}

pub open spec fn dec_patch_state(b: Seq<u8>, i: int) -> Option<(PatchState, int)> {
    match dec_u8(b, i) {
        Some((0u8, j)) => Some((PatchState::Idle, j)),
        Some((1u8, j)) => Some((PatchState::PatchEnabled, j)),
        Some((2u8, j)) => Some((PatchState::PatchToggled, j)),
        Some((3u8, j)) => Some((PatchState::Blocked, j)),
        _ => None,
    }
}

pub open spec fn dec_addr(b: Seq<u8>, i: int) -> Option<(Seq<u8>, int)> {
    if 0 <= i && i + 4 <= b.len() {
        Some((b.subrange(i, i + 4), i + 4))
    } else {
        None
    }
}

pub open spec fn dec_input_jack(b: Seq<u8>, i: int) -> Option<(HeldInputJackV, int)> {
    match dec_id(b, i) {
        None => None,
        Some((uuid, j)) => match dec_u32(b, j) {
            None => None,
            Some((id, k)) => Some((HeldInputJackV { uuid, id }, k)),
        },
    }
}

pub open spec fn dec_output_jack(b: Seq<u8>, i: int) -> Option<(HeldOutputJackV, int)> {
    match dec_id(b, i) {
        None => None,
        Some((uuid, j)) => match dec_u32(b, j) {
            None => None,
            Some((id, k)) => match dec_u16(b, k) {
                None => None,
                Some((color, l)) => match dec_addr(b, l) {
                    None => None,
                    Some((addr, m)) => Some((HeldOutputJackV { uuid, id, color, addr }, m)),
                },
            },
        },
    }
}

pub open spec fn dec_opt_u32(b: Seq<u8>, i: int) -> Option<(Option<u32>, int)> {
    match dec_u8(b, i) {
        Some((0u8, j)) => Some((None, j)),
        Some((1u8, j)) => match dec_u32(b, j) {
            None => None,
            Some((x, k)) => Some((Some(x), k)),
        },
        _ => None,
    }
}

pub open spec fn dec_opt_input(b: Seq<u8>, i: int) -> Option<(Option<HeldInputJackV>, int)> {
    match dec_u8(b, i) {
        Some((0u8, j)) => Some((None, j)),
        Some((1u8, j)) => match dec_input_jack(b, j) {
            None => None,
            Some((x, k)) => Some((Some(x), k)),
        },
        _ => None,
    }
}

pub open spec fn dec_opt_output(b: Seq<u8>, i: int) -> Option<(Option<HeldOutputJackV>, int)> {
    match dec_u8(b, i) {
        Some((0u8, j)) => Some((None, j)),
        Some((1u8, j)) => match dec_output_jack(b, j) {
            None => None,
            Some((x, k)) => Some((Some(x), k)),
        },
        _ => None,
    }
}

pub open spec fn dec_local_state(b: Seq<u8>, i: int) -> Option<(LocalStateV, int)> {
    match dec_u8(b, i) {
        None => None,
        Some((ni, j)) => match dec_u8(b, j) {
            None => None,
            Some((no, k)) => match dec_opt_input(b, k) {
                None => None,
                Some((hi, l)) => match dec_opt_output(b, l) {
                    None => None,
                    Some((ho, m)) => Some(
                        (
                            LocalStateV {
                                num_held_inputs: ni,
                                num_held_outputs: no,
                                held_input: hi,
                                held_output: ho,
                            },
                            m,
                        ),
                    ),
                },
            },
        },
    }
}

pub open spec fn dec_opt_state(b: Seq<u8>, i: int) -> Option<(Option<LocalStateV>, int)> {
    match dec_u8(b, i) {
        Some((0u8, j)) => Some((None, j)),
        Some((1u8, j)) => match dec_local_state(b, j) {
            None => None,
            Some((x, k)) => Some((Some(x), k)),
        },
        _ => None,
    }
}

pub open spec fn dec_connection(b: Seq<u8>, i: int) -> Option<(PatchConnectionV, int)> {
    match dec_id(b, i) {
        None => None,
        Some((iu, j)) => match dec_u32(b, j) {
            None => None,
            Some((ij, k)) => match dec_id(b, k) {
                None => None,
                Some((ou, l)) => match dec_u32(b, l) {
                    None => None,
                    Some((oj, m)) => Some(
                        (
                            PatchConnectionV {
                                input_uuid: iu,
                                input_jack_id: ij,
                                output_uuid: ou,
                                output_jack_id: oj,
                            },
                            m,
                        ),
                    ),
                },
            },
        },
    }
}

pub open spec fn dec_directive_at(b: Seq<u8>, i: int) -> Option<(DirectiveV, int)> {
    match dec_u8(b, i) {
        None => None,
        Some((tag, j)) => match tag {
            0u8 => match dec_id(b, j) {
                None => None,
                Some((uuid, k)) => match dec_output_jack(b, k) {
                    None => None,
                    Some((source, l)) => match dec_connection(b, l) {
                        None => None,
                        Some((connection, m)) => Some(
                            (
                                DirectiveV::SetInputJack(
                                    DirectiveSetInputJackV { uuid, source, connection },
                                ),
                                m,
                            ),
                        ),
                    },
                },
            },
            1u8 => match dec_id(b, j) {
                None => None,
                Some((uuid, k)) => match dec_input_jack(b, k) {
                    None => None,
                    Some((source, l)) => match dec_connection(b, l) {
                        None => None,
                        Some((connection, m)) => Some(
                            (
                                DirectiveV::SetOutputJack(
                                    DirectiveSetOutputJackV { uuid, source, connection },
                                ),
                                m,
                            ),
                        ),
                    },
                },
            },
            2u8 => match dec_id(b, j) {
                None => None,
                Some((uuid, k)) => Some((DirectiveV::Halt(DirectiveHaltV { uuid }), k)),
            },
            3u8 => match dec_id(b, j) {
                None => None,
                Some((uuid, k)) => match dec_u32(b, k) {
                    None => None,
                    Some((term, l)) => match dec_u32(b, l) {
                        None => None,
                        Some((iteration, m)) => Some(
                            (
                                DirectiveV::Heartbeat(DirectiveHeartbeatV { uuid, term, iteration }),
                                m,
                            ),
                        ),
                    },
                },
            },
            4u8 => match dec_id(b, j) {
                None => None,
                Some((uuid, k)) => match dec_u32(b, k) {
                    None => None,
                    Some((term, l)) => match dec_bool(b, l) {
                        None => None,
                        Some((success, m)) => match dec_opt_u32(b, m) {
                            None => None,
                            Some((iteration, n)) => match dec_opt_state(b, n) {
                                None => None,
                                Some((state, o)) => Some(
                                    (
                                        DirectiveV::HeartbeatResponse(
                                            DirectiveHeartbeatResponseV {
                                                uuid,
                                                term,
                                                success,
                                                iteration,
                                                state,
                                            },
                                        ),
                                        o,
                                    ),
                                ),
                            },
                        },
                    },
                },
            },
            5u8 => match dec_id(b, j) {
                None => None,
                Some((uuid, k)) => match dec_u32(b, k) {
                    None => None,
                    Some((term, l)) => Some(
                        (DirectiveV::RequestVote(DirectiveRequestVoteV { uuid, term }), l),
                    ),
                },
            },
            6u8 => match dec_id(b, j) {
                None => None,
                Some((uuid, k)) => match dec_u32(b, k) {
                    None => None,
                    Some((term, l)) => match dec_id(b, l) {
                        None => None,
                        Some((voted_for, m)) => match dec_bool(b, m) {
                            None => None,
                            Some((vote_granted, n)) => Some(
                                (
                                    DirectiveV::RequestVoteResponse(
                                        DirectiveRequestVoteResponseV {
                                            uuid,
                                            term,
                                            voted_for,
                                            vote_granted,
                                        },
                                    ),
                                    n,
                                ),
                            ),
                        },
                    },
                },
            },
            7u8 => match dec_id(b, j) {
                None => None,
                Some((uuid, k)) => match dec_patch_state(b, k) {
                    None => None,
                    Some((patch_state, l)) => match dec_opt_input(b, l) {
                        None => None,
                        Some((input, m)) => match dec_opt_output(b, m) {
                            None => None,
                            Some((output, n)) => Some(
                                (
                                    DirectiveV::GlobalStateUpdate(
                                        DirectiveGlobalStateUpdateV {
                                            uuid,
                                            patch_state,
                                            input,
                                            output,
                                        },
                                    ),
                                    n,
                                ),
                            ),
                        },
                    },
                },
            },
            _ => None,
        },
    }
}

/// What a whole datagram decodes to: the directive, provided the buffer holds
/// exactly one well-formed encoding and nothing else.
pub open spec fn dec_directive(b: Seq<u8>) -> Option<DirectiveV> {
    match dec_directive_at(b, 0) {
        Some((d, j)) => if j == b.len() {
            Some(d)
        } else {
            None
        },
        None => None,
    }
}

// ---------------------------------------------------------------------------
// Well-formedness of directive views
// ---------------------------------------------------------------------------

pub open spec fn wf_input_jack(j: HeldInputJackV) -> bool {
    wf_id(j.uuid)
}

pub open spec fn wf_output_jack(j: HeldOutputJackV) -> bool {
    wf_id(j.uuid) && j.addr.len() == 4
}

pub open spec fn wf_opt_input(o: Option<HeldInputJackV>) -> bool {
    o matches Some(j) ==> wf_input_jack(j)
}

pub open spec fn wf_opt_output(o: Option<HeldOutputJackV>) -> bool {
    o matches Some(j) ==> wf_output_jack(j)
}

pub open spec fn wf_local_state(s: LocalStateV) -> bool {
    wf_opt_input(s.held_input) && wf_opt_output(s.held_output)
}

pub open spec fn wf_connection(c: PatchConnectionV) -> bool {
    wf_id(c.input_uuid) && wf_id(c.output_uuid)
}

/// Every identifier inside the directive fits the wire format, and every
/// address field has its four bytes. This holds of the view of every
/// executable [`Directive`] value.
pub open spec fn wf_directive(d: DirectiveV) -> bool {
    match d {
        DirectiveV::SetInputJack(m) => wf_id(m.uuid) && wf_output_jack(m.source) && wf_connection(
            m.connection,
        ),
        DirectiveV::SetOutputJack(m) => wf_id(m.uuid) && wf_input_jack(m.source) && wf_connection(
            m.connection,
        ),
        DirectiveV::Halt(m) => wf_id(m.uuid),
        DirectiveV::Heartbeat(m) => wf_id(m.uuid),
        DirectiveV::HeartbeatResponse(m) => wf_id(m.uuid) && (m.state matches Some(s)
            ==> wf_local_state(s)),
        DirectiveV::RequestVote(m) => wf_id(m.uuid),
        DirectiveV::RequestVoteResponse(m) => wf_id(m.uuid) && wf_id(m.voted_for),
        DirectiveV::GlobalStateUpdate(m) => wf_id(m.uuid) && wf_opt_input(m.input) && wf_opt_output(
            m.output,
        ),
    }
}

// ---------------------------------------------------------------------------
// Round trip: decoding inverts encoding
// ---------------------------------------------------------------------------

/// A region of `b` that holds `s1 + s2` splits into a region holding `s1`
/// and a region holding `s2`.
proof fn lemma_split2(b: Seq<u8>, i: int, j: int, s1: Seq<u8>, s2: Seq<u8>)
    requires
        0 <= i <= j <= b.len(),
        b.subrange(i, j) == s1 + s2,
    ensures
        i + s1.len() + s2.len() == j,
        b.subrange(i, i + s1.len() as int) == s1,
        b.subrange(i + s1.len() as int, j) == s2,
{
    let k = i + s1.len() as int;
    assert(b.subrange(i, j).len() == s1.len() + s2.len());
    assert forall|l: int| 0 <= l < s1.len() implies b.subrange(i, k)[l] == s1[l] by {
        assert(b.subrange(i, j)[l] == (s1 + s2)[l]);
    }
    assert(b.subrange(i, k) =~= s1);
    assert forall|l: int| 0 <= l < s2.len() implies b.subrange(k, j)[l] == s2[l] by {
        assert(b.subrange(k, j)[l] == b[k + l]);
        assert(b.subrange(i, j)[l + s1.len()] == b[i + l + s1.len()]);
        assert((s1 + s2)[l + s1.len()] == s2[l]);
    }
    assert(b.subrange(k, j) =~= s2);
}

proof fn lemma_dec_u8(b: Seq<u8>, i: int, j: int, x: u8)
    requires
        0 <= i,
        j <= b.len(),
        b.subrange(i, j) == seq![x],
        j == i + 1,
    ensures
        dec_u8(b, i) == Some((x, j)),
{
    assert(b[i] == b.subrange(i, j)[0]);
}

proof fn lemma_dec_u16(b: Seq<u8>, i: int, j: int, x: u16)
    requires
        0 <= i,
        j <= b.len(),
        b.subrange(i, j) == enc_u16(x),
        j == i + 2,
    ensures
        dec_u16(b, i) == Some((x, j)),
{
    assert(b[i] == b.subrange(i, j)[0]);
    assert(b[i + 1] == b.subrange(i, j)[1]);
    assert(b[i] == (x as int % 256) as u8);
    assert(b[i + 1] == (x as int / 256) as u8);
    assert(x as int == (x as int % 256) + 256 * (x as int / 256)) by (nonlinear_arith);
    assert(0 <= x as int / 256 < 256);
}

proof fn lemma_dec_u32(b: Seq<u8>, i: int, j: int, x: u32)
    requires
        0 <= i,
        j <= b.len(),
        b.subrange(i, j) == enc_u32(x),
        j == i + 4,
    ensures
        dec_u32(b, i) == Some((x, j)),
{
    let lo = (x as int % 0x10000) as u16;
    let hi = (x as int / 0x10000) as u16;
    lemma_split2(b, i, j, enc_u16(lo), enc_u16(hi));
    lemma_dec_u16(b, i, i + 2, lo);
    lemma_dec_u16(b, i + 2, j, hi);
    assert(x as int == (x as int % 0x10000) + 0x10000 * (x as int / 0x10000)) by (nonlinear_arith);
    assert(0 <= x as int / 0x10000 < 0x10000);
}

proof fn lemma_dec_bool(b: Seq<u8>, i: int, j: int, x: bool)
    requires
        0 <= i,
        j <= b.len(),
        b.subrange(i, j) == enc_bool(x),
        j == i + 1,
    ensures
        dec_bool(b, i) == Some((x, j)),
{
    assert(b[i] == b.subrange(i, j)[0]);
}

proof fn lemma_dec_patch_state(b: Seq<u8>, i: int, j: int, x: PatchState)
    requires
        0 <= i,
        j <= b.len(),
        b.subrange(i, j) == enc_patch_state(x),
        j == i + 1,
    ensures
        dec_patch_state(b, i) == Some((x, j)),
{
    assert(b[i] == b.subrange(i, j)[0]);
}

proof fn lemma_dec_id(b: Seq<u8>, i: int, j: int, s: Seq<u8>)
    requires
        0 <= i,
        j <= b.len(),
        wf_id(s),
        b.subrange(i, j) == enc_id(s),
        j == i + 1 + s.len(),
    ensures
        dec_id(b, i) == Some((s, j)),
{
    lemma_split2(b, i, j, seq![s.len() as u8], s);
    lemma_dec_u8(b, i, i + 1, s.len() as u8);
}

proof fn lemma_dec_addr(b: Seq<u8>, i: int, j: int, a: Seq<u8>)
    requires
        0 <= i,
        j <= b.len(),
        a.len() == 4,
        b.subrange(i, j) == enc_addr(a),
        j == i + 4,
    ensures
        dec_addr(b, i) == Some((a, j)),
{
    assert forall|l: int| 0 <= l < 4 implies b.subrange(i, j)[l] == a[l] by {
        assert(enc_addr(a)[l] == a[l]);
    }
    assert(b.subrange(i, i + 4) =~= a);
}

proof fn lemma_dec_input_jack(b: Seq<u8>, i: int, j: int, v: HeldInputJackV)
    requires
        0 <= i,
        j <= b.len(),
        wf_input_jack(v),
        b.subrange(i, j) == enc_input_jack(v),
        j == i + enc_input_jack(v).len(),
    ensures
        dec_input_jack(b, i) == Some((v, j)),
{
    lemma_split2(b, i, j, enc_id(v.uuid), enc_u32(v.id));
    let k = i + enc_id(v.uuid).len() as int;
    lemma_dec_id(b, i, k, v.uuid);
    lemma_dec_u32(b, k, j, v.id);
}

proof fn lemma_dec_output_jack(b: Seq<u8>, i: int, j: int, v: HeldOutputJackV)
    requires
        0 <= i,
        j <= b.len(),
        wf_output_jack(v),
        b.subrange(i, j) == enc_output_jack(v),
        j == i + enc_output_jack(v).len(),
    ensures
        dec_output_jack(b, i) == Some((v, j)),
{
    let s1 = enc_id(v.uuid);
    let s2 = enc_u32(v.id);
    let s3 = enc_u16(v.color);
    let s4 = enc_addr(v.addr);
    assert(enc_output_jack(v) =~= s1 + (s2 + (s3 + s4)));
    lemma_split2(b, i, j, s1, s2 + (s3 + s4));
    let k1 = i + s1.len() as int;
    lemma_dec_id(b, i, k1, v.uuid);
    lemma_split2(b, k1, j, s2, s3 + s4);
    let k2 = k1 + s2.len() as int;
    lemma_dec_u32(b, k1, k2, v.id);
    lemma_split2(b, k2, j, s3, s4);
    let k3 = k2 + s3.len() as int;
    lemma_dec_u16(b, k2, k3, v.color);
    lemma_dec_addr(b, k3, j, v.addr);
}

proof fn lemma_dec_opt_u32(b: Seq<u8>, i: int, j: int, v: Option<u32>)
    requires
        0 <= i,
        j <= b.len(),
        b.subrange(i, j) == enc_opt_u32(v),
        j == i + enc_opt_u32(v).len(),
    ensures
        dec_opt_u32(b, i) == Some((v, j)),
{
    match v {
        None => {
            lemma_dec_u8(b, i, j, 0u8);
        },
        Some(x) => {
            lemma_split2(b, i, j, seq![1u8], enc_u32(x));
            lemma_dec_u8(b, i, i + 1, 1u8);
            lemma_dec_u32(b, i + 1, j, x);
        },
    }
}

proof fn lemma_dec_opt_input(b: Seq<u8>, i: int, j: int, v: Option<HeldInputJackV>)
    requires
        0 <= i,
        j <= b.len(),
        wf_opt_input(v),
        b.subrange(i, j) == enc_opt_input(v),
        j == i + enc_opt_input(v).len(),
    ensures
        dec_opt_input(b, i) == Some((v, j)),
{
    match v {
        None => {
            lemma_dec_u8(b, i, j, 0u8);
        },
        Some(x) => {
            lemma_split2(b, i, j, seq![1u8], enc_input_jack(x));
            lemma_dec_u8(b, i, i + 1, 1u8);
            lemma_dec_input_jack(b, i + 1, j, x);
        },
    }
}

proof fn lemma_dec_opt_output(b: Seq<u8>, i: int, j: int, v: Option<HeldOutputJackV>)
    requires
        0 <= i,
        j <= b.len(),
        wf_opt_output(v),
        b.subrange(i, j) == enc_opt_output(v),
        j == i + enc_opt_output(v).len(),
    ensures
        dec_opt_output(b, i) == Some((v, j)),
{
    match v {
        None => {
            lemma_dec_u8(b, i, j, 0u8);
        },
        Some(x) => {
            lemma_split2(b, i, j, seq![1u8], enc_output_jack(x));
            lemma_dec_u8(b, i, i + 1, 1u8);
            lemma_dec_output_jack(b, i + 1, j, x);
        },
    }
}

proof fn lemma_dec_local_state(b: Seq<u8>, i: int, j: int, v: LocalStateV)
    requires
        0 <= i,
        j <= b.len(),
        wf_local_state(v),
        b.subrange(i, j) == enc_local_state(v),
        j == i + enc_local_state(v).len(),
    ensures
        dec_local_state(b, i) == Some((v, j)),
{
    let s1 = seq![v.num_held_inputs];
    let s2 = seq![v.num_held_outputs];
    let s3 = enc_opt_input(v.held_input);
    let s4 = enc_opt_output(v.held_output);
    assert(enc_local_state(v) =~= s1 + (s2 + (s3 + s4)));
    lemma_split2(b, i, j, s1, s2 + (s3 + s4));
    let k1 = i + 1;
    lemma_dec_u8(b, i, k1, v.num_held_inputs);
    lemma_split2(b, k1, j, s2, s3 + s4);
    let k2 = k1 + 1;
    lemma_dec_u8(b, k1, k2, v.num_held_outputs);
    lemma_split2(b, k2, j, s3, s4);
    let k3 = k2 + s3.len() as int;
    lemma_dec_opt_input(b, k2, k3, v.held_input);
    lemma_dec_opt_output(b, k3, j, v.held_output);
}

proof fn lemma_dec_opt_state(b: Seq<u8>, i: int, j: int, v: Option<LocalStateV>)
    requires
        0 <= i,
        j <= b.len(),
        v matches Some(s) ==> wf_local_state(s),
        b.subrange(i, j) == enc_opt_state(v),
        j == i + enc_opt_state(v).len(),
    ensures
        dec_opt_state(b, i) == Some((v, j)),
{
    match v {
        None => {
            lemma_dec_u8(b, i, j, 0u8);
        },
        Some(x) => {
            lemma_split2(b, i, j, seq![1u8], enc_local_state(x));
            lemma_dec_u8(b, i, i + 1, 1u8);
            lemma_dec_local_state(b, i + 1, j, x);
        },
    }
}

proof fn lemma_dec_connection(b: Seq<u8>, i: int, j: int, v: PatchConnectionV)
    requires
        0 <= i,
        j <= b.len(),
        wf_connection(v),
        b.subrange(i, j) == enc_connection(v),
        j == i + enc_connection(v).len(),
    ensures
        dec_connection(b, i) == Some((v, j)),
{
    let s1 = enc_id(v.input_uuid);
    let s2 = enc_u32(v.input_jack_id);
    let s3 = enc_id(v.output_uuid);
    let s4 = enc_u32(v.output_jack_id);
    assert(enc_connection(v) =~= s1 + (s2 + (s3 + s4)));
    lemma_split2(b, i, j, s1, s2 + (s3 + s4));
    let k1 = i + s1.len() as int;
    lemma_dec_id(b, i, k1, v.input_uuid);
    lemma_split2(b, k1, j, s2, s3 + s4);
    let k2 = k1 + s2.len() as int;
    lemma_dec_u32(b, k1, k2, v.input_jack_id);
    lemma_split2(b, k2, j, s3, s4);
    let k3 = k2 + s3.len() as int;
    lemma_dec_id(b, k2, k3, v.output_uuid);
    lemma_dec_u32(b, k3, j, v.output_jack_id);
}

#[verifier::rlimit(100)]
#[verifier::spinoff_prover]
proof fn lemma_dec_directive_at(b: Seq<u8>, i: int, j: int, d: DirectiveV)
    requires
        0 <= i,
        j <= b.len(),
        wf_directive(d),
        b.subrange(i, j) == enc_directive(d),
        j == i + enc_directive(d).len(),
    ensures
        dec_directive_at(b, i) == Some((d, j)),
{
    match d {
        DirectiveV::SetInputJack(m) => {
            let s1 = enc_id(m.uuid);
            let s2 = enc_output_jack(m.source);
            let s3 = enc_connection(m.connection);
            assert(enc_directive(d) =~= seq![0u8] + (s1 + (s2 + s3)));
            lemma_split2(b, i, j, seq![0u8], s1 + (s2 + s3));
            lemma_dec_u8(b, i, i + 1, 0u8);
            lemma_split2(b, i + 1, j, s1, s2 + s3);
            let k1 = i + 1 + s1.len() as int;
            lemma_dec_id(b, i + 1, k1, m.uuid);
            lemma_split2(b, k1, j, s2, s3);
            let k2 = k1 + s2.len() as int;
            lemma_dec_output_jack(b, k1, k2, m.source);
            lemma_dec_connection(b, k2, j, m.connection);
        },
        DirectiveV::SetOutputJack(m) => {
            let s1 = enc_id(m.uuid);
            let s2 = enc_input_jack(m.source);
            let s3 = enc_connection(m.connection);
            assert(enc_directive(d) =~= seq![1u8] + (s1 + (s2 + s3)));
            lemma_split2(b, i, j, seq![1u8], s1 + (s2 + s3));
            lemma_dec_u8(b, i, i + 1, 1u8);
            lemma_split2(b, i + 1, j, s1, s2 + s3);
            let k1 = i + 1 + s1.len() as int;
            lemma_dec_id(b, i + 1, k1, m.uuid);
            lemma_split2(b, k1, j, s2, s3);
            let k2 = k1 + s2.len() as int;
            lemma_dec_input_jack(b, k1, k2, m.source);
            lemma_dec_connection(b, k2, j, m.connection);
        },
        DirectiveV::Halt(m) => {
            let s1 = enc_id(m.uuid);
            lemma_split2(b, i, j, seq![2u8], s1);
            lemma_dec_u8(b, i, i + 1, 2u8);
            lemma_dec_id(b, i + 1, j, m.uuid);
        },
        DirectiveV::Heartbeat(m) => {
            let s1 = enc_id(m.uuid);
            let s2 = enc_u32(m.term);
            let s3 = enc_u32(m.iteration);
            assert(enc_directive(d) =~= seq![3u8] + (s1 + (s2 + s3)));
            lemma_split2(b, i, j, seq![3u8], s1 + (s2 + s3));
            lemma_dec_u8(b, i, i + 1, 3u8);
            lemma_split2(b, i + 1, j, s1, s2 + s3);
            let k1 = i + 1 + s1.len() as int;
            lemma_dec_id(b, i + 1, k1, m.uuid);
            lemma_split2(b, k1, j, s2, s3);
            let k2 = k1 + s2.len() as int;
            lemma_dec_u32(b, k1, k2, m.term);
            lemma_dec_u32(b, k2, j, m.iteration);
        },
        DirectiveV::HeartbeatResponse(m) => {
            let s1 = enc_id(m.uuid);
            let s2 = enc_u32(m.term);
            let s3 = enc_bool(m.success);
            let s4 = enc_opt_u32(m.iteration);
            let s5 = enc_opt_state(m.state);
            assert(enc_directive(d) =~= seq![4u8] + (s1 + (s2 + (s3 + (s4 + s5)))));
            lemma_split2(b, i, j, seq![4u8], s1 + (s2 + (s3 + (s4 + s5))));
            lemma_dec_u8(b, i, i + 1, 4u8);
            lemma_split2(b, i + 1, j, s1, s2 + (s3 + (s4 + s5)));
            let k1 = i + 1 + s1.len() as int;
            lemma_dec_id(b, i + 1, k1, m.uuid);
            lemma_split2(b, k1, j, s2, s3 + (s4 + s5));
            let k2 = k1 + s2.len() as int;
            lemma_dec_u32(b, k1, k2, m.term);
            lemma_split2(b, k2, j, s3, s4 + s5);
            let k3 = k2 + s3.len() as int;
            lemma_dec_bool(b, k2, k3, m.success);
            lemma_split2(b, k3, j, s4, s5);
            let k4 = k3 + s4.len() as int;
            lemma_dec_opt_u32(b, k3, k4, m.iteration);
            lemma_dec_opt_state(b, k4, j, m.state);
        },
        DirectiveV::RequestVote(m) => {
            let s1 = enc_id(m.uuid);
            let s2 = enc_u32(m.term);
            assert(enc_directive(d) =~= seq![5u8] + (s1 + s2));
            lemma_split2(b, i, j, seq![5u8], s1 + s2);
            lemma_dec_u8(b, i, i + 1, 5u8);
            lemma_split2(b, i + 1, j, s1, s2);
            let k1 = i + 1 + s1.len() as int;
            lemma_dec_id(b, i + 1, k1, m.uuid);
            lemma_dec_u32(b, k1, j, m.term);
        },
        DirectiveV::RequestVoteResponse(m) => {
            let s1 = enc_id(m.uuid);
            let s2 = enc_u32(m.term);
            let s3 = enc_id(m.voted_for);
            let s4 = enc_bool(m.vote_granted);
            assert(enc_directive(d) =~= seq![6u8] + (s1 + (s2 + (s3 + s4))));
            lemma_split2(b, i, j, seq![6u8], s1 + (s2 + (s3 + s4)));
            lemma_dec_u8(b, i, i + 1, 6u8);
            lemma_split2(b, i + 1, j, s1, s2 + (s3 + s4));
            let k1 = i + 1 + s1.len() as int;
            lemma_dec_id(b, i + 1, k1, m.uuid);
            lemma_split2(b, k1, j, s2, s3 + s4);
            let k2 = k1 + s2.len() as int;
            lemma_dec_u32(b, k1, k2, m.term);
            lemma_split2(b, k2, j, s3, s4);
            let k3 = k2 + s3.len() as int;
            lemma_dec_id(b, k2, k3, m.voted_for);
            lemma_dec_bool(b, k3, j, m.vote_granted);
        },
        DirectiveV::GlobalStateUpdate(m) => {
            let s1 = enc_id(m.uuid);
            let s2 = enc_patch_state(m.patch_state);
            let s3 = enc_opt_input(m.input);
            let s4 = enc_opt_output(m.output);
            assert(enc_directive(d) =~= seq![7u8] + (s1 + (s2 + (s3 + s4))));
            lemma_split2(b, i, j, seq![7u8], s1 + (s2 + (s3 + s4)));
            lemma_dec_u8(b, i, i + 1, 7u8);
            lemma_split2(b, i + 1, j, s1, s2 + (s3 + s4));
            let k1 = i + 1 + s1.len() as int;
            lemma_dec_id(b, i + 1, k1, m.uuid);
            lemma_split2(b, k1, j, s2, s3 + s4);
            let k2 = k1 + s2.len() as int;
            lemma_dec_patch_state(b, k1, k2, m.patch_state);
            lemma_split2(b, k2, j, s3, s4);
            let k3 = k2 + s3.len() as int;
            lemma_dec_opt_input(b, k2, k3, m.input);
            lemma_dec_opt_output(b, k3, j, m.output);
        },
    }
}

/// Decoding inverts encoding: for every well-formed directive, decoding its
/// encoding yields the directive back.
pub proof fn lemma_directive_round_trip(d: DirectiveV)
    requires
        wf_directive(d),
    ensures
        dec_directive(enc_directive(d)) == Some(d),
{
    let b = enc_directive(d);
    assert(b.subrange(0, b.len() as int) =~= b);
    lemma_dec_directive_at(b, 0, b.len() as int, d);
}

/// No well-formed directive encodes to more than one datagram's worth of bytes.
pub proof fn lemma_directive_len(d: DirectiveV)
    requires
        wf_directive(d),
    ensures
        enc_directive(d).len() <= MAX_DIRECTIVE_LEN,
{
}

// ---------------------------------------------------------------------------
// Executable encoder
// ---------------------------------------------------------------------------

fn push_u16(out: &mut Vec<u8>, x: u16)
    ensures
        final(out)@ == old(out)@ + enc_u16(x),
{
    out.push((x % 256) as u8);
    out.push((x / 256) as u8);
    proof {
        assert(out@ =~= old(out)@ + enc_u16(x));
    }
}

fn push_u32(out: &mut Vec<u8>, x: u32)
    ensures
        final(out)@ == old(out)@ + enc_u32(x),
{
    push_u16(out, (x % 0x10000) as u16);
    push_u16(out, (x / 0x10000) as u16);
    proof {
        assert(out@ =~= old(out)@ + enc_u32(x));
    }
}

fn push_bool(out: &mut Vec<u8>, x: bool)
    ensures
        final(out)@ == old(out)@ + enc_bool(x),
{
    if x {
        out.push(1u8);
    } else {
        out.push(0u8);
    }
    proof {
        assert(out@ =~= old(out)@ + enc_bool(x));
    }
}

fn push_id(out: &mut Vec<u8>, id: &NodeId)
    ensures
        final(out)@ == old(out)@ + enc_id(id@),
        wf_id(id@),
{
    let n = id.len();
    out.push(n as u8);
    let mut bytes = id.to_vec();
    out.append(&mut bytes);
    proof {
        assert(out@ =~= old(out)@ + enc_id(id@));
    }
}

fn push_patch_state(out: &mut Vec<u8>, p: &PatchState)
    ensures
        final(out)@ == old(out)@ + enc_patch_state(*p),
{
    match p {
        PatchState::Idle => out.push(0u8),
        PatchState::PatchEnabled => out.push(1u8),
        PatchState::PatchToggled => out.push(2u8),
        PatchState::Blocked => out.push(3u8),
    }
    proof {
        assert(out@ =~= old(out)@ + enc_patch_state(*p));
    }
}

fn push_addr(out: &mut Vec<u8>, a: &[u8; 4])
    ensures
        final(out)@ == old(out)@ + enc_addr(a@),
{
    out.push(a[0]);
    out.push(a[1]);
    out.push(a[2]);
    out.push(a[3]);
    proof {
        assert(out@ =~= old(out)@ + enc_addr(a@));
    }
}

fn push_input_jack(out: &mut Vec<u8>, j: &HeldInputJack)
    ensures
        final(out)@ == old(out)@ + enc_input_jack(j@),
        wf_input_jack(j@),
{
    push_id(out, &j.uuid);
    push_u32(out, j.id);
    proof {
        assert(out@ =~= old(out)@ + enc_input_jack(j@));
    }
}

fn push_output_jack(out: &mut Vec<u8>, j: &HeldOutputJack)
    ensures
        final(out)@ == old(out)@ + enc_output_jack(j@),
        wf_output_jack(j@),
{
    push_id(out, &j.uuid);
    push_u32(out, j.id);
    push_u16(out, j.color);
    push_addr(out, &j.addr);
    proof {
        assert(out@ =~= old(out)@ + enc_output_jack(j@));
    }
}

fn push_opt_u32(out: &mut Vec<u8>, o: &Option<u32>)
    ensures
        final(out)@ == old(out)@ + enc_opt_u32(*o),
{
    match o {
        None => out.push(0u8),
        Some(x) => {
            out.push(1u8);
            push_u32(out, *x);
        },
    }
    proof {
        assert(out@ =~= old(out)@ + enc_opt_u32(*o));
    }
}

fn push_opt_input(out: &mut Vec<u8>, o: &Option<HeldInputJack>)
    ensures
        final(out)@ == old(out)@ + enc_opt_input(opt_input_view(*o)),
        wf_opt_input(opt_input_view(*o)),
{
    match o {
        None => out.push(0u8),
        Some(j) => {
            out.push(1u8);
            push_input_jack(out, j);
        },
    }
    proof {
        assert(out@ =~= old(out)@ + enc_opt_input(opt_input_view(*o)));
    }
}

fn push_opt_output(out: &mut Vec<u8>, o: &Option<HeldOutputJack>)
    ensures
        final(out)@ == old(out)@ + enc_opt_output(opt_output_view(*o)),
        wf_opt_output(opt_output_view(*o)),
{
    match o {
        None => out.push(0u8),
        Some(j) => {
            out.push(1u8);
            push_output_jack(out, j);
        },
    }
    proof {
        assert(out@ =~= old(out)@ + enc_opt_output(opt_output_view(*o)));
    }
}

fn push_local_state(out: &mut Vec<u8>, s: &LocalState)
    ensures
        final(out)@ == old(out)@ + enc_local_state(s@),
        wf_local_state(s@),
{
    out.push(s.num_held_inputs);
    out.push(s.num_held_outputs);
    push_opt_input(out, &s.held_input);
    push_opt_output(out, &s.held_output);
    proof {
        assert(out@ =~= old(out)@ + enc_local_state(s@));
    }
}

fn push_opt_state(out: &mut Vec<u8>, o: &Option<LocalState>)
    ensures
        final(out)@ == old(out)@ + enc_opt_state(opt_state_view(*o)),
        opt_state_view(*o) matches Some(s) ==> wf_local_state(s),
{
    match o {
        None => out.push(0u8),
        Some(s) => {
            out.push(1u8);
            push_local_state(out, s);
        },
    }
    proof {
        assert(out@ =~= old(out)@ + enc_opt_state(opt_state_view(*o)));
    }
}

fn push_connection(out: &mut Vec<u8>, c: &PatchConnection)
    ensures
        final(out)@ == old(out)@ + enc_connection(c@),
        wf_connection(c@),
{
    push_id(out, &c.input_uuid);
    push_u32(out, c.input_jack_id);
    push_id(out, &c.output_uuid);
    push_u32(out, c.output_jack_id);
    proof {
        assert(out@ =~= old(out)@ + enc_connection(c@));
    }
}

/// Encode one directive into a fresh datagram.
pub fn encode_directive(d: &Directive) -> (r: Vec<u8>)
    ensures
        r@ == enc_directive(d@),
        wf_directive(d@),
        r@.len() <= MAX_DIRECTIVE_LEN,
{
    let mut out: Vec<u8> = Vec::new();
    match d {
        Directive::SetInputJack(m) => {
            out.push(0u8);
            push_id(&mut out, &m.uuid);
            push_output_jack(&mut out, &m.source);
            push_connection(&mut out, &m.connection);
        },
        Directive::SetOutputJack(m) => {
            out.push(1u8);
            push_id(&mut out, &m.uuid);
            push_input_jack(&mut out, &m.source);
            push_connection(&mut out, &m.connection);
        },
        Directive::Halt(m) => {
            out.push(2u8);
            push_id(&mut out, &m.uuid);
        },
        Directive::Heartbeat(m) => {
            out.push(3u8);
            push_id(&mut out, &m.uuid);
            push_u32(&mut out, m.term);
            push_u32(&mut out, m.iteration);
        },
        Directive::HeartbeatResponse(m) => {
            out.push(4u8);
            push_id(&mut out, &m.uuid);
            push_u32(&mut out, m.term);
            push_bool(&mut out, m.success);
            push_opt_u32(&mut out, &m.iteration);
            push_opt_state(&mut out, &m.state);
        },
        Directive::RequestVote(m) => {
            out.push(5u8);
            push_id(&mut out, &m.uuid);
            push_u32(&mut out, m.term);
        },
        Directive::RequestVoteResponse(m) => {
            out.push(6u8);
            push_id(&mut out, &m.uuid);
            push_u32(&mut out, m.term);
            push_id(&mut out, &m.voted_for);
            push_bool(&mut out, m.vote_granted);
        },
        Directive::GlobalStateUpdate(m) => {
            out.push(7u8);
            push_id(&mut out, &m.uuid);
            push_patch_state(&mut out, &m.patch_state);
            push_opt_input(&mut out, &m.input);
            push_opt_output(&mut out, &m.output);
        },
    }
    proof {
        assert(out@ =~= enc_directive(d@));
        lemma_directive_len(d@);
    }
    out
}

// ---------------------------------------------------------------------------
// Executable decoder
// ---------------------------------------------------------------------------

fn read_u8(buf: &[u8], pos: usize) -> (r: Option<(u8, usize)>)
    ensures
        match dec_u8(buf@, pos as int) {
            Some(vp) => r matches Some(x) && x.0 == vp.0 && x.1 == vp.1,
            None => r is None,
        },
{
    if pos < buf.len() {
        Some((buf[pos], pos + 1))
    } else {
        None
    }
}

fn read_u16(buf: &[u8], pos: usize) -> (r: Option<(u16, usize)>)
    ensures
        match dec_u16(buf@, pos as int) {
            Some(vp) => r matches Some(x) && x.0 == vp.0 && x.1 == vp.1,
            None => r is None,
        },
{
    if pos < buf.len() && buf.len() - pos >= 2 {
        let lo = buf[pos];
        let hi = buf[pos + 1];
        Some((lo as u16 + 256 * (hi as u16), pos + 2))
    } else {
        None
    }
}

fn read_u32(buf: &[u8], pos: usize) -> (r: Option<(u32, usize)>)
    ensures
        match dec_u32(buf@, pos as int) {
            Some(vp) => r matches Some(x) && x.0 == vp.0 && x.1 == vp.1,
            None => r is None,
        },
{
    match read_u16(buf, pos) {
        None => None,
        Some((lo, p1)) => match read_u16(buf, p1) {
            None => None,
            Some((hi, p2)) => Some((lo as u32 + 0x10000 * (hi as u32), p2)),
        },
    }
}

fn read_bool(buf: &[u8], pos: usize) -> (r: Option<(bool, usize)>)
    ensures
        match dec_bool(buf@, pos as int) {
            Some(vp) => r matches Some(x) && x.0 == vp.0 && x.1 == vp.1,
            None => r is None,
        },
{
    match read_u8(buf, pos) {
        Some((0u8, j)) => Some((false, j)),
        Some((1u8, j)) => Some((true, j)),
        _ => None,
    }
}

fn read_id(buf: &[u8], pos: usize) -> (r: Option<(NodeId, usize)>)
    ensures
        match dec_id(buf@, pos as int) {
            Some(vp) => r matches Some(x) && x.0@ == vp.0 && x.1 == vp.1,
            None => r is None,
        },
{
    match read_u8(buf, pos) {
        None => None,
        Some((n, j)) => {
            if n <= 48 && buf.len() - j >= n as usize {
                let id = NodeId::read_from(buf, j, n as usize);
                Some((id, j + n as usize))
            } else {
                None
            }
        },
    }
}

fn read_patch_state(buf: &[u8], pos: usize) -> (r: Option<(PatchState, usize)>)
    ensures
        match dec_patch_state(buf@, pos as int) {
            Some(vp) => r matches Some(x) && x.0 == vp.0 && x.1 == vp.1,
            None => r is None,
        },
{
    match read_u8(buf, pos) {
        Some((0u8, j)) => Some((PatchState::Idle, j)),
        Some((1u8, j)) => Some((PatchState::PatchEnabled, j)),
        Some((2u8, j)) => Some((PatchState::PatchToggled, j)),
        Some((3u8, j)) => Some((PatchState::Blocked, j)),
        _ => None,
    }
}

fn read_addr(buf: &[u8], pos: usize) -> (r: Option<([u8; 4], usize)>)
    ensures
        match dec_addr(buf@, pos as int) {
            Some(vp) => r matches Some(x) && x.0@ == vp.0 && x.1 == vp.1,
            None => r is None,
        },
{
    if pos < buf.len() && buf.len() - pos >= 4 {
        let a = [buf[pos], buf[pos + 1], buf[pos + 2], buf[pos + 3]];
        proof {
            assert(a@ =~= buf@.subrange(pos as int, pos as int + 4));
        }
        Some((a, pos + 4))
    } else {
        None
    }
}

fn read_input_jack(buf: &[u8], pos: usize) -> (r: Option<(HeldInputJack, usize)>)
    ensures
        match dec_input_jack(buf@, pos as int) {
            Some(vp) => r matches Some(x) && x.0@ == vp.0 && x.1 == vp.1,
            None => r is None,
        },
{
    match read_id(buf, pos) {
        None => None,
        Some((uuid, p1)) => match read_u32(buf, p1) {
            None => None,
            Some((id, p2)) => Some((HeldInputJack { uuid, id }, p2)),
        },
    }
}

fn read_output_jack(buf: &[u8], pos: usize) -> (r: Option<(HeldOutputJack, usize)>)
    ensures
        match dec_output_jack(buf@, pos as int) {
            Some(vp) => r matches Some(x) && x.0@ == vp.0 && x.1 == vp.1,
            None => r is None,
        },
{
    match read_id(buf, pos) {
        None => None,
        Some((uuid, p1)) => match read_u32(buf, p1) {
            None => None,
            Some((id, p2)) => match read_u16(buf, p2) {
                None => None,
                Some((color, p3)) => match read_addr(buf, p3) {
                    None => None,
                    Some((addr, p4)) => Some((HeldOutputJack { uuid, id, color, addr }, p4)),
                },
            },
        },
    }
}

fn read_opt_u32(buf: &[u8], pos: usize) -> (r: Option<(Option<u32>, usize)>)
    ensures
        match dec_opt_u32(buf@, pos as int) {
            Some(vp) => r matches Some(x) && x.0 == vp.0 && x.1 == vp.1,
            None => r is None,
        },
{
    match read_u8(buf, pos) {
        Some((0u8, j)) => Some((None, j)),
        Some((1u8, j)) => match read_u32(buf, j) {
            None => None,
            Some((x, k)) => Some((Some(x), k)),
        },
        _ => None,
    }
}

fn read_opt_input(buf: &[u8], pos: usize) -> (r: Option<(Option<HeldInputJack>, usize)>)
    ensures
        match dec_opt_input(buf@, pos as int) {
            Some(vp) => r matches Some(x) && opt_input_view(x.0) == vp.0 && x.1 == vp.1,
            None => r is None,
        },
{
    match read_u8(buf, pos) {
        Some((0u8, j)) => Some((None, j)),
        Some((1u8, j)) => match read_input_jack(buf, j) {
            None => None,
            Some((x, k)) => Some((Some(x), k)),
        },
        _ => None,
    }
}

fn read_opt_output(buf: &[u8], pos: usize) -> (r: Option<(Option<HeldOutputJack>, usize)>)
    ensures
        match dec_opt_output(buf@, pos as int) {
            Some(vp) => r matches Some(x) && opt_output_view(x.0) == vp.0 && x.1 == vp.1,
            None => r is None,
        },
{
    match read_u8(buf, pos) {
        Some((0u8, j)) => Some((None, j)),
        Some((1u8, j)) => match read_output_jack(buf, j) {
            None => None,
            Some((x, k)) => Some((Some(x), k)),
        },
        _ => None,
    }
}

fn read_local_state(buf: &[u8], pos: usize) -> (r: Option<(LocalState, usize)>)
    ensures
        match dec_local_state(buf@, pos as int) {
            Some(vp) => r matches Some(x) && x.0@ == vp.0 && x.1 == vp.1,
            None => r is None,
        },
{
    match read_u8(buf, pos) {
        None => None,
        Some((ni, p1)) => match read_u8(buf, p1) {
            None => None,
            Some((no, p2)) => match read_opt_input(buf, p2) {
                None => None,
                Some((hi, p3)) => match read_opt_output(buf, p3) {
                    None => None,
                    Some((ho, p4)) => Some(
                        (
                            LocalState {
                                num_held_inputs: ni,
                                num_held_outputs: no,
                                held_input: hi,
                                held_output: ho,
                            },
                            p4,
                        ),
                    ),
                },
            },
        },
    }
}

fn read_opt_state(buf: &[u8], pos: usize) -> (r: Option<(Option<LocalState>, usize)>)
    ensures
        match dec_opt_state(buf@, pos as int) {
            Some(vp) => r matches Some(x) && opt_state_view(x.0) == vp.0 && x.1 == vp.1,
            None => r is None,
        },
{
    match read_u8(buf, pos) {
        Some((0u8, j)) => Some((None, j)),
        Some((1u8, j)) => match read_local_state(buf, j) {
            None => None,
            Some((x, k)) => Some((Some(x), k)),
        },
        _ => None,
    }
}

fn read_connection(buf: &[u8], pos: usize) -> (r: Option<(PatchConnection, usize)>)
    ensures
        match dec_connection(buf@, pos as int) {
            Some(vp) => r matches Some(x) && x.0@ == vp.0 && x.1 == vp.1,
            None => r is None,
        },
{
    match read_id(buf, pos) {
        None => None,
        Some((iu, p1)) => match read_u32(buf, p1) {
            None => None,
            Some((ij, p2)) => match read_id(buf, p2) {
                None => None,
                Some((ou, p3)) => match read_u32(buf, p3) {
                    None => None,
                    Some((oj, p4)) => Some(
                        (
                            PatchConnection {
                                input_uuid: iu,
                                input_jack_id: ij,
                                output_uuid: ou,
                                output_jack_id: oj,
                            },
                            p4,
                        ),
                    ),
                },
            },
        },
    }
}

#[verifier::rlimit(100)]
#[verifier::spinoff_prover]
fn read_directive_at(buf: &[u8], pos: usize) -> (r: Option<(Directive, usize)>)
    ensures
        match dec_directive_at(buf@, pos as int) {
            Some(vp) => r matches Some(x) && x.0@ == vp.0 && x.1 == vp.1,
            None => r is None,
        },
{
    match read_u8(buf, pos) {
        None => None,
        Some((tag, j)) => match tag {
            0u8 => match read_id(buf, j) {
                None => None,
                Some((uuid, p1)) => match read_output_jack(buf, p1) {
                    None => None,
                    Some((source, p2)) => match read_connection(buf, p2) {
                        None => None,
                        Some((connection, p3)) => Some(
                            (
                                Directive::SetInputJack(
                                    DirectiveSetInputJack { uuid, source, connection },
                                ),
                                p3,
                            ),
                        ),
                    },
                },
            },
            1u8 => match read_id(buf, j) {
                None => None,
                Some((uuid, p1)) => match read_input_jack(buf, p1) {
                    None => None,
                    Some((source, p2)) => match read_connection(buf, p2) {
                        None => None,
                        Some((connection, p3)) => Some(
                            (
                                Directive::SetOutputJack(
                                    DirectiveSetOutputJack { uuid, source, connection },
                                ),
                                p3,
                            ),
                        ),
                    },
                },
            },
            2u8 => match read_id(buf, j) {
                None => None,
                Some((uuid, p1)) => Some((Directive::Halt(DirectiveHalt { uuid }), p1)),
            },
            3u8 => match read_id(buf, j) {
                None => None,
                Some((uuid, p1)) => match read_u32(buf, p1) {
                    None => None,
                    Some((term, p2)) => match read_u32(buf, p2) {
                        None => None,
                        Some((iteration, p3)) => Some(
                            (
                                Directive::Heartbeat(DirectiveHeartbeat { uuid, term, iteration }),
                                p3,
                            ),
                        ),
                    },
                },
            },
            4u8 => match read_id(buf, j) {
                None => None,
                Some((uuid, p1)) => match read_u32(buf, p1) {
                    None => None,
                    Some((term, p2)) => match read_bool(buf, p2) {
                        None => None,
                        Some((success, p3)) => match read_opt_u32(buf, p3) {
                            None => None,
                            Some((iteration, p4)) => match read_opt_state(buf, p4) {
                                None => None,
                                Some((state, p5)) => Some(
                                    (
                                        Directive::HeartbeatResponse(
                                            DirectiveHeartbeatResponse {
                                                uuid,
                                                term,
                                                success,
                                                iteration,
                                                state,
                                            },
                                        ),
                                        p5,
                                    ),
                                ),
                            },
                        },
                    },
                },
            },
            5u8 => match read_id(buf, j) {
                None => None,
                Some((uuid, p1)) => match read_u32(buf, p1) {
                    None => None,
                    Some((term, p2)) => Some(
                        (Directive::RequestVote(DirectiveRequestVote { uuid, term }), p2),
                    ),
                },
            },
            6u8 => match read_id(buf, j) {
                None => None,
                Some((uuid, p1)) => match read_u32(buf, p1) {
                    None => None,
                    Some((term, p2)) => match read_id(buf, p2) {
                        None => None,
                        Some((voted_for, p3)) => match read_bool(buf, p3) {
                            None => None,
                            Some((vote_granted, p4)) => Some(
                                (
                                    Directive::RequestVoteResponse(
                                        DirectiveRequestVoteResponse {
                                            uuid,
                                            term,
                                            voted_for,
                                            vote_granted,
                                        },
                                    ),
                                    p4,
                                ),
                            ),
                        },
                    },
                },
            },
            7u8 => match read_id(buf, j) {
                None => None,
                Some((uuid, p1)) => match read_patch_state(buf, p1) {
                    None => None,
                    Some((patch_state, p2)) => match read_opt_input(buf, p2) {
                        None => None,
                        Some((input, p3)) => match read_opt_output(buf, p3) {
                            None => None,
                            Some((output, p4)) => Some(
                                (
                                    Directive::GlobalStateUpdate(
                                        DirectiveGlobalStateUpdate {
                                            uuid,
                                            patch_state,
                                            input,
                                            output,
                                        },
                                    ),
                                    p4,
                                ),
                            ),
                        },
                    },
                },
            },
            _ => None,
        },
    }
}

/// Decode one datagram; `None` when the bytes are not exactly one
/// well-formed directive.
pub fn decode_directive(buf: &[u8]) -> (r: Option<Directive>)
    ensures
        match dec_directive(buf@) {
            Some(d) => r matches Some(x) && x@ == d,
            None => r is None,
        },
{
    match read_directive_at(buf, 0) {
        Some((d, p)) => if p == buf.len() {
            Some(d)
        } else {
            None
        },
        None => None,
    }
}

} // verus!
