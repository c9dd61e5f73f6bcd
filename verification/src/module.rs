//! The per-node coordinator.
//!
//! A [`Module`] owns a bounded pool of input and output jack handles, the
//! bitmask of jacks the local user currently holds, the embedded
//! [`LeaderElection`] instance, and the last-known global [`PatchState`].
//! One call to [`Module::poll`] is one cooperative tick: pending transport
//! work, at most one inbound control directive, the periodic election tick,
//! one audio block per jack through the processing callback, and the visual
//! feedback derived from it all. The transport itself stands behind the
//! [`Network`] trait, implemented by each environment's collaborator.

use vstd::prelude::*;

use crate::audio::{AudioPacket, packet_from_bytes, packet_to_bytes};
use crate::codec::{decode_directive, encode_directive};
use crate::id::NodeId;
use crate::leader_election::{
    ElectionV, LeaderElection, MAX_TIME, election_init, election_inv, lemma_term_monotonic,
};
use crate::protocol::{
    Directive, DirectiveGlobalStateUpdate, DirectiveHalt, HeldInputJack, HeldOutputJack,
    LocalState, PatchState, opt_directive_view,
};

verus! {

/// Everything that can go wrong inside the coordination layer.
#[derive(Clone, Copy, Debug, PartialEq, Eq, Structural)]
pub enum Error {
    /// Protocol-level sanity violation; the offending directive is dropped.
    General,
    /// The transport failed while sending.
    Network,
    /// Nothing available right now; routine for non-blocking calls.
    NoData,
    /// A jack handle outside the configured bounds.
    InvalidJackId,
    /// Bytes that do not decode to a directive or packet.
    Parse,
    /// A bounded table is full.
    StorageFull,
}

/// Handle to one input jack, allocated by [`Module::add_input_jack`].
#[derive(Clone, Copy, Debug)]
pub struct InputJackHandle(usize);

impl View for InputJackHandle {
    type V = int;

    closed spec fn view(&self) -> int {
        self.0 as int
    }
}

/// Handle to one output jack, allocated by [`Module::add_output_jack`].
#[derive(Clone, Copy, Debug)]
pub struct OutputJackHandle(usize);

impl View for OutputJackHandle {
    type V = int;

    closed spec fn view(&self) -> int {
        self.0 as int
    }
}

/// General backend communication control.
///
/// The backend networking can run on a host operating system, on an embedded
/// TCP/IP stack, or in-process; this trait is what such a transport must
/// provide. Every call is non-blocking: "nothing yet" is an error value,
/// never a wait. Nothing is promised of the outcomes — the coordinator is
/// verified to behave for every answer a transport can give.
pub trait Network {
    /// Update internal state and send/recv packets, if needed.
    fn poll(&mut self, time: i64) -> Result<bool, Error>;

    /// Check if the control channel is ready for sending.
    fn can_send(&mut self) -> bool;

    /// Get one datagram from the directive multicast.
    fn recv_directive(&mut self) -> Result<Vec<u8>, Error>;

    /// Output one datagram on the directive multicast.
    fn send_directive(&mut self, buf: &[u8]) -> Result<(), Error>;

    /// Connect an input jack to an output's multicast group.
    fn jack_connect(&mut self, input_jack_id: usize, addr: [u8; 4], time: i64) -> Result<
        (),
        Error,
    >;

    /// Get audio data for a particular input jack.
    fn jack_recv(&mut self, input_jack_id: usize) -> Result<Vec<u8>, Error>;

    /// Send audio data for a particular output jack.
    fn jack_send(&mut self, output_jack_id: usize, buf: &[u8]) -> Result<(), Error>;

    /// The multicast group assigned to a particular output jack.
    fn jack_addr(&mut self, output_jack_id: usize) -> Result<[u8; 4], Error>;

    /// Disconnect an input jack from its group.
    fn jack_disconnect(&mut self, input_jack_id: usize, time: i64) -> Result<(), Error>;
}

/// Whether bit `j` of the hold mask is set.
pub open spec fn bit_set(mask: u16, j: u16) -> bool {
    mask & (1u16 << j) != 0
}

/// Number of mask bits set below `n`.
pub open spec fn mask_count(mask: u16, n: int) -> int
    decreases n,
{
    if n <= 0 {
        0
    } else {
        mask_count(mask, n - 1) + if bit_set(mask, (n - 1) as u16) {
            1int
        } else {
            0int
        }
    }
}

/// The self-report a node derives from its hold masks: the counts are the
/// set bits per direction, and a concrete jack is named exactly when its
/// direction holds exactly one.
pub open spec fn local_state_reported(
    ls: crate::protocol::LocalStateV,
    id: Seq<u8>,
    color: u16,
    in_mask: u16,
    out_mask: u16,
    n_in: int,
    n_out: int,
) -> bool {
    &&& ls.num_held_inputs == mask_count(in_mask, n_in)
    &&& ls.num_held_outputs == mask_count(out_mask, n_out)
    &&& (ls.held_input is Some <==> mask_count(in_mask, n_in) == 1)
    &&& (ls.held_output is Some <==> mask_count(out_mask, n_out) == 1)
    &&& (ls.held_input matches Some(j) ==> j.uuid == id && 0 <= j.id < n_in && bit_set(
        in_mask,
        j.id as u16,
    ))
    &&& (ls.held_output matches Some(j) ==> j.uuid == id && 0 <= j.id < n_out && bit_set(
        out_mask,
        j.id as u16,
    ) && j.color == color)
}

/// Increment that sticks at the maximum instead of wrapping.
pub open spec fn sat_inc(x: u32) -> u32 {
    if x < u32::MAX {
        (x + 1) as u32
    } else {
        x
    }
}

/// The audio data exchanged with the processing callback in one tick: one
/// received packet per input jack, one packet to send per output jack.
pub struct ProcessBlock<const I: usize, const O: usize> {
    input: [AudioPacket; I],
    output: [AudioPacket; O],
}

/// View of a [`ProcessBlock`].
#[verifier::ext_equal]
pub struct ProcessBlockV {
    pub input: Seq<AudioPacket>,
    pub output: Seq<AudioPacket>,
}

impl<const I: usize, const O: usize> View for ProcessBlock<I, O> {
    type V = ProcessBlockV;

    closed spec fn view(&self) -> ProcessBlockV {
        ProcessBlockV { input: self.input@, output: self.output@ }
    }
}

impl<const I: usize, const O: usize> ProcessBlock<I, O> {
    /// A block of silent packets in both directions.
    pub fn new() -> (r: ProcessBlock<I, O>)
        ensures
            r@.input.len() == I as int,
            r@.output.len() == O as int,
    {
        ProcessBlock { input: [AudioPacket::new(); I], output: [AudioPacket::new(); O] }
    }

    /// The packet received on one input jack this tick.
    pub fn get_input(&self, handle: InputJackHandle) -> (r: &AudioPacket)
        requires
            0 <= handle@ < I as int,
        ensures
            *r == self@.input[handle@],
    {
        &self.input[handle.0]
    }

    /// Set the packet to send on one output jack this tick.
    pub fn set_output(&mut self, handle: OutputJackHandle, data: AudioPacket)
        requires
            0 <= handle@ < O as int,
        ensures
            final(self)@.output == old(self)@.output.update(handle@, data),
            final(self)@.input == old(self)@.input,
    {
        self.output[handle.0] = data;
    }
}

impl<const I: usize, const O: usize> Default for ProcessBlock<I, O> {
    /// A block of silent packets in both directions.
    fn default() -> (r: ProcessBlock<I, O>)
        ensures
            r@.input.len() == I as int,
            r@.output.len() == O as int,
    {
        ProcessBlock::new()
    }
}

/// Hue and brightness for one jack's indicator light.
#[derive(Clone, Copy, Debug, PartialEq, Eq, Structural)]
pub struct JackColor {
    pub hue: u16,
    pub level: i16,
}

/// The visual feedback one tick produces: the network-wide patch state, a
/// color per jack, and the drop count surfaced at report intervals.
#[derive(Debug)]
pub struct PollUpdate<const I: usize, const O: usize> {
    patch_state: PatchState,
    input_colors: [JackColor; I],
    output_colors: [JackColor; O],
    dropped_packets: u32,
}

/// View of a [`PollUpdate`].
#[verifier::ext_equal]
pub struct PollUpdateV {
    pub patch_state: PatchState,
    pub input_colors: Seq<JackColor>,
    pub output_colors: Seq<JackColor>,
    pub dropped_packets: u32,
}

impl<const I: usize, const O: usize> View for PollUpdate<I, O> {
    type V = PollUpdateV;

    closed spec fn view(&self) -> PollUpdateV {
        PollUpdateV {
            patch_state: self.patch_state,
            input_colors: self.input_colors@,
            output_colors: self.output_colors@,
            dropped_packets: self.dropped_packets,
        }
    }
}

impl<const I: usize, const O: usize> PollUpdate<I, O> {
    /// The indicator color of one input jack.
    pub fn get_input_color(&self, handle: InputJackHandle) -> (r: JackColor)
        requires
            0 <= handle@ < I as int,
        ensures
            r == self@.input_colors[handle@],
    {
        self.input_colors[handle.0]
    }

    /// The indicator color of one output jack.
    pub fn get_output_color(&self, handle: OutputJackHandle) -> (r: JackColor)
        requires
            0 <= handle@ < O as int,
        ensures
            r == self@.output_colors[handle@],
    {
        self.output_colors[handle.0]
    }

    /// The network-wide patch state this node last adopted.
    pub fn get_patch_state(&self) -> (r: PatchState)
        ensures
            r == self@.patch_state,
    {
        self.patch_state
    }

    /// Drops accumulated since the last report interval; zero between reports.
    pub fn get_dropped_packets(&self) -> (r: u32)
        ensures
            r == self@.dropped_packets,
    {
        self.dropped_packets
    }
}

/// The jack-connect instruction a global state update carries for the node
/// named `id`: the input slot to connect and the color to adopt, present
/// exactly when the update is a toggled patch naming one of this node's
/// input jacks as the listening side.
pub open spec fn gsu_connect_target(
    g: crate::protocol::DirectiveGlobalStateUpdateV,
    id: Seq<u8>,
    n_in: int,
) -> Option<(int, u16)> {
    match (g.input, g.output) {
        (Some(inp), Some(out)) => if inp.uuid == id && g.patch_state is PatchToggled && 0 <= inp.id
            < n_in {
            Some((inp.id as int, out.color))
        } else {
            None
        },
        _ => None,
    }
}

/// View of a [`Module`].
#[verifier::ext_equal]
pub struct ModuleV {
    pub id: Seq<u8>,
    pub color: u16,
    pub election: ElectionV,
    pub input_mask: u16,
    pub output_mask: u16,
    pub dropped_packets: u32,
    pub patch_state: PatchState,
    pub input_colors: Seq<u16>,
    pub input_jack_handles: int,
    pub output_jack_handles: int,
}

/// Module communication and state handling.
///
/// `Module` drives communication with the other modules on the network,
/// manages the current patch state, and moves one audio packet per jack per
/// tick. It is platform independent: callers supply the current time in
/// milliseconds from an arbitrary start and fresh entropy for timer jitter,
/// and call [`Module::poll`] at regular intervals.
pub struct Module<N: Network, const I: usize, const O: usize> {
    uuid: NodeId,
    color: u16,
    interface: N,
    leader_election: LeaderElection,
    input_patch_enabled: u16,
    output_patch_enabled: u16,
    dropped_packets: u32,
    patch_state: PatchState,
    input_colors: [u16; I],
    input_jack_handles: usize,
    output_jack_handles: usize,
}

impl<N: Network, const I: usize, const O: usize> View for Module<N, I, O> {
    type V = ModuleV;

    closed spec fn view(&self) -> ModuleV {
        ModuleV {
            id: self.uuid@,
            color: self.color,
            election: self.leader_election@,
            input_mask: self.input_patch_enabled,
            output_mask: self.output_patch_enabled,
            dropped_packets: self.dropped_packets,
            patch_state: self.patch_state,
            input_colors: self.input_colors@,
            input_jack_handles: self.input_jack_handles as int,
            output_jack_handles: self.output_jack_handles as int,
        }
    }
}

impl<N: Network, const I: usize, const O: usize> Module<N, I, O> {
    /// Reachable-state invariant: the election state is sound and the
    /// allocated handles fit the compile-time bounds.
    pub open spec fn wf(&self) -> bool {
        &&& election_inv(self@.election)
        &&& 0 <= self@.input_jack_handles <= I as int
        &&& 0 <= self@.output_jack_handles <= O as int
        &&& I <= 16
        &&& O <= 16
    }

    /// A fresh module: idle, nothing held, follower at term zero.
    pub fn new(interface: N, id: NodeId, color: u16, time: i64, entropy: u32) -> (r: Module<
        N,
        I,
        O,
    >)
        requires
            I <= 16,
            O <= 16,
            time <= MAX_TIME,
        ensures
            r.wf(),
            r@.id == id@,
            r@.color == color,
            r@.election == election_init(id@, time as int, entropy),
            r@.input_mask == 0 && r@.output_mask == 0,
            r@.dropped_packets == 0,
            r@.patch_state == PatchState::Idle,
            r@.input_colors.len() == I as int,
            forall|i: int| 0 <= i < I as int ==> r@.input_colors[i] == 0u16,
            r@.input_jack_handles == 0 && r@.output_jack_handles == 0,
    {
        Module {
            uuid: id,
            color,
            interface,
            leader_election: LeaderElection::new(id, time, entropy),
            input_patch_enabled: 0,
            output_patch_enabled: 0,
            dropped_packets: 0,
            patch_state: PatchState::Idle,
            input_colors: [0u16; I],
            input_jack_handles: 0,
            output_jack_handles: 0,
        }
    }

    /// Allocate the next input jack handle; fails with `StorageFull` exactly
    /// when all `I` handles are taken.
    pub fn add_input_jack(&mut self) -> (r: Result<InputJackHandle, Error>)
        requires
            old(self).wf(),
        ensures
            final(self).wf(),
            old(self)@.input_jack_handles == I as int ==> r == Err::<InputJackHandle, Error>(
                Error::StorageFull,
            ) && final(self)@ == old(self)@,
            old(self)@.input_jack_handles < I as int ==> (r matches Ok(h) && h@ == old(
                self,
            )@.input_jack_handles && final(self)@ == (ModuleV {
                input_jack_handles: old(self)@.input_jack_handles + 1,
                ..old(self)@
            })),
    {
        if self.input_jack_handles == I {
            Err(Error::StorageFull)
        } else {
            let handle = InputJackHandle(self.input_jack_handles);
            self.input_jack_handles = self.input_jack_handles + 1;
            proof {
                assert(self@ =~= (ModuleV {
                    input_jack_handles: old(self)@.input_jack_handles + 1,
                    ..old(self)@
                }));
            }
            Ok(handle)
        }
    }

    /// Allocate the next output jack handle; fails with `StorageFull`
    /// exactly when all `O` handles are taken.
    pub fn add_output_jack(&mut self) -> (r: Result<OutputJackHandle, Error>)
        requires
            old(self).wf(),
        ensures
            final(self).wf(),
            old(self)@.output_jack_handles == O as int ==> r == Err::<OutputJackHandle, Error>(
                Error::StorageFull,
            ) && final(self)@ == old(self)@,
            old(self)@.output_jack_handles < O as int ==> (r matches Ok(h) && h@ == old(
                self,
            )@.output_jack_handles && final(self)@ == (ModuleV {
                output_jack_handles: old(self)@.output_jack_handles + 1,
                ..old(self)@
            })),
    {
        if self.output_jack_handles == O {
            Err(Error::StorageFull)
        } else {
            let handle = OutputJackHandle(self.output_jack_handles);
            self.output_jack_handles = self.output_jack_handles + 1;
            proof {
                assert(self@ =~= (ModuleV {
                    output_jack_handles: old(self)@.output_jack_handles + 1,
                    ..old(self)@
                }));
            }
            Ok(handle)
        }
    }

    /// Whether the control channel can currently send.
    pub fn can_send(&mut self) -> bool {
        self.interface.can_send()
    }

    /// Mark one local input jack held or released, and hand the election the
    /// recomputed self-report.
    pub fn set_input_patch_enabled(&mut self, jack_id: InputJackHandle, status: bool) -> (r:
        Result<(), Error>)
        requires
            old(self).wf(),
            jack_id@ < old(self)@.input_jack_handles,
        ensures
            final(self).wf(),
            final(self)@.input_mask == (if status {
                old(self)@.input_mask | (1u16 << (jack_id@ as u16))
            } else {
                old(self)@.input_mask & !(1u16 << (jack_id@ as u16))
            }),
            final(self)@.output_mask == old(self)@.output_mask,
            final(self)@.patch_state == old(self)@.patch_state,
            final(self)@.input_jack_handles == old(self)@.input_jack_handles,
            final(self)@.output_jack_handles == old(self)@.output_jack_handles,
            r is Ok ==> local_state_reported(
                final(self)@.election.local_state,
                old(self)@.id,
                old(self)@.color,
                final(self)@.input_mask,
                final(self)@.output_mask,
                I as int,
                O as int,
            ),
            mask_count(final(self)@.output_mask, O as int) != 1 ==> r is Ok,
            r is Err ==> mask_count(final(self)@.output_mask, O as int) == 1,
    {
        if status {
            self.input_patch_enabled = self.input_patch_enabled | (1u16 << (jack_id.0 as u16));
        } else {
            self.input_patch_enabled = self.input_patch_enabled & !(1u16 << (jack_id.0 as u16));
        }
        self.update_patch_state()
    }

    /// Mark one local output jack held or released, and hand the election
    /// the recomputed self-report.
    pub fn set_output_patch_enabled(&mut self, jack_id: OutputJackHandle, status: bool) -> (r:
        Result<(), Error>)
        requires
            old(self).wf(),
            jack_id@ < old(self)@.output_jack_handles,
        ensures
            final(self).wf(),
            final(self)@.output_mask == (if status {
                old(self)@.output_mask | (1u16 << (jack_id@ as u16))
            } else {
                old(self)@.output_mask & !(1u16 << (jack_id@ as u16))
            }),
            final(self)@.input_mask == old(self)@.input_mask,
            final(self)@.patch_state == old(self)@.patch_state,
            final(self)@.input_jack_handles == old(self)@.input_jack_handles,
            final(self)@.output_jack_handles == old(self)@.output_jack_handles,
            r is Ok ==> local_state_reported(
                final(self)@.election.local_state,
                old(self)@.id,
                old(self)@.color,
                final(self)@.input_mask,
                final(self)@.output_mask,
                I as int,
                O as int,
            ),
            mask_count(final(self)@.output_mask, O as int) != 1 ==> r is Ok,
            r is Err ==> mask_count(final(self)@.output_mask, O as int) == 1,
    {
        if status {
            self.output_patch_enabled = self.output_patch_enabled | (1u16 << (jack_id.0 as u16));
        } else {
            self.output_patch_enabled = self.output_patch_enabled & !(1u16 << (jack_id.0 as u16));
        }
        self.update_patch_state()
    }

    /// Recompute the self-report from the hold masks and store it in the
    /// election state. Fails only when the transport cannot name the
    /// multicast group of the single held output.
    fn update_patch_state(&mut self) -> (r: Result<(), Error>)
        requires
            old(self).wf(),
        ensures
            final(self).wf(),
            final(self)@.input_mask == old(self)@.input_mask,
            final(self)@.output_mask == old(self)@.output_mask,
            final(self)@.patch_state == old(self)@.patch_state,
            final(self)@.input_jack_handles == old(self)@.input_jack_handles,
            final(self)@.output_jack_handles == old(self)@.output_jack_handles,
            r is Ok ==> local_state_reported(
                final(self)@.election.local_state,
                old(self)@.id,
                old(self)@.color,
                old(self)@.input_mask,
                old(self)@.output_mask,
                I as int,
                O as int,
            ),
            mask_count(old(self)@.output_mask, O as int) != 1 ==> r is Ok,
            r is Err ==> mask_count(old(self)@.output_mask, O as int) == 1,
            r is Err ==> final(self)@.election == old(self)@.election,
    {
        let in_mask = self.input_patch_enabled;
        let out_mask = self.output_patch_enabled;
        let mut num_inputs: u8 = 0;
        let mut first_input: usize = 0;
        let mut i: usize = 0;
        while i < I
            invariant
                i <= I <= 16,
                num_inputs as int == mask_count(in_mask, i as int),
                num_inputs <= i,
                mask_count(in_mask, i as int) >= 1 ==> (first_input < i && bit_set(
                    in_mask,
                    first_input as u16,
                )),
            decreases I - i,
        {
            if in_mask & (1u16 << (i as u16)) != 0 {
                if num_inputs == 0 {
                    first_input = i;
                }
                num_inputs = num_inputs + 1;
            }
            i += 1;
        }
        let mut num_outputs: u8 = 0;
        let mut first_output: usize = 0;
        let mut j: usize = 0;
        while j < O
            invariant
                j <= O <= 16,
                num_outputs as int == mask_count(out_mask, j as int),
                num_outputs <= j,
                mask_count(out_mask, j as int) >= 1 ==> (first_output < j && bit_set(
                    out_mask,
                    first_output as u16,
                )),
            decreases O - j,
        {
            if out_mask & (1u16 << (j as u16)) != 0 {
                if num_outputs == 0 {
                    first_output = j;
                }
                num_outputs = num_outputs + 1;
            }
            j += 1;
        }
        let held_input: Option<HeldInputJack> = if num_inputs == 1 {
            Some(HeldInputJack { uuid: self.uuid, id: first_input as u32 })
        } else {
            None
        };
        let held_output: Option<HeldOutputJack> = if num_outputs == 1 {
            let addr = match self.interface.jack_addr(first_output) {
                Ok(a) => a,
                Err(e) => {
                    return Err(e);
                },
            };
            Some(
                HeldOutputJack {
                    uuid: self.uuid,
                    id: first_output as u32,
                    color: self.color,
                    addr,
                },
            )
        } else {
            None
        };
        let local_state = LocalState {
            num_held_inputs: num_inputs,
            num_held_outputs: num_outputs,
            held_input,
            held_output,
        };
        self.leader_election.update_local_state(local_state);
        Ok(())
    }

    /// Broadcast the advisory halt directive to every node.
    pub fn send_halt(&mut self)
        requires
            old(self).wf(),
        ensures
            final(self).wf(),
            final(self)@ == old(self)@,
    {
        let name = [71u8, 76u8, 79u8, 66u8, 65u8, 76u8];
        let uuid = match NodeId::from_bytes(name.as_slice()) {
            Some(g) => g,
            None => self.uuid,
        };
        let out = Directive::Halt(DirectiveHalt { uuid });
        let bytes = encode_directive(&out);
        let _ = self.interface.send_directive(bytes.as_slice());
    }

    fn send_directive(&mut self, directive: &Directive) -> (r: Result<(), Error>)
        requires
            old(self).wf(),
        ensures
            final(self).wf(),
            final(self)@ == old(self)@,
    {
        let bytes = encode_directive(directive);
        match self.interface.send_directive(bytes.as_slice()) {
            Ok(()) => Ok(()),
            Err(_) => Err(Error::Network),
        }
    }

    /// Apply a global state update: adopt the announced patch state, and when
    /// this node is the instructed input holder of a toggled patch, connect
    /// that input jack to the output's group and adopt its display color.
    fn process_gsu(&mut self, gsu: DirectiveGlobalStateUpdate, time: i64)
        requires
            old(self).wf(),
        ensures
            final(self).wf(),
            final(self)@.patch_state == gsu@.patch_state,
            final(self)@.id == old(self)@.id,
            final(self)@.color == old(self)@.color,
            final(self)@.election == old(self)@.election,
            final(self)@.input_mask == old(self)@.input_mask,
            final(self)@.output_mask == old(self)@.output_mask,
            final(self)@.input_jack_handles == old(self)@.input_jack_handles,
            final(self)@.output_jack_handles == old(self)@.output_jack_handles,
            final(self)@.dropped_packets == old(self)@.dropped_packets,
            match gsu_connect_target(gsu@, old(self)@.id, I as int) {
                Some((slot, color)) => final(self)@.input_colors == old(self)@.input_colors
                    || final(self)@.input_colors == old(self)@.input_colors.update(slot, color),
                None => final(self)@.input_colors == old(self)@.input_colors,
            },
    {
        self.patch_state = gsu.patch_state;
        if let Some(input) = gsu.input {
            let is_me = input.uuid.eq_id(&self.uuid);
            let toggled = self.patch_state == PatchState::PatchToggled;
            if is_me && toggled {
                if let Some(output) = gsu.output {
                    let jack_id = input.id as usize;
                    if jack_id < I {
                        self.toggle_input_jack(jack_id, output, time);
                    }
                }
            }
        }
    }

    fn bump_dropped(&mut self)
        ensures
            final(self)@ == (ModuleV {
                dropped_packets: sat_inc(old(self)@.dropped_packets),
                ..old(self)@
            }),
    {
        if self.dropped_packets < u32::MAX {
            self.dropped_packets = self.dropped_packets + 1;
        }
        proof {
            assert(self@ =~= (ModuleV {
                dropped_packets: sat_inc(old(self)@.dropped_packets),
                ..old(self)@
            }));
        }
    }

    /// Feed the election one message or tick; everything but the election
    /// state is untouched, and the term never decreases.
    fn drive_election(&mut self, message: Option<Directive>, time: i64, entropy: u32) -> (r:
        Option<Directive>)
        requires
            old(self).wf(),
            time <= MAX_TIME,
        ensures
            final(self).wf(),
            final(self)@.election.current_term >= old(self)@.election.current_term,
            final(self)@ == (ModuleV { election: final(self)@.election, ..old(self)@ }),
    {
        let ghost le0 = self.leader_election@;
        let r = self.leader_election.poll(message, time, entropy);
        proof {
            lemma_term_monotonic(le0, opt_directive_view(message), time as int, entropy);
            assert(self@ =~= (ModuleV { election: self@.election, ..old(self)@ }));
        }
        r
    }

    /// One cooperative tick: transport upkeep, at most one inbound control
    /// directive, the periodic election tick (applying and forwarding any
    /// produced directive, including the leader's own decision), one audio
    /// block per jack through `f` — called exactly once per tick — and the
    /// resulting visual feedback.
    ///
    /// When the control channel cannot send, the election falls back to a
    /// fresh follower so a stale leadership cannot outlive a partition; the
    /// audio path still runs. A transport answering "no data" is routine
    /// and never escalated. Audio-jack failures are counted and tolerated;
    /// a failure to send a control directive, or a transport poll failure,
    /// is the error.
    #[verifier::rlimit(100)]
    #[verifier::spinoff_prover]
    pub fn poll<F: FnOnce(ProcessBlock<I, O>) -> ProcessBlock<I, O>>(
        &mut self,
        time: i64,
        entropy: u32,
        f: F,
    ) -> (r: Result<PollUpdate<I, O>, Error>)
        requires
            old(self).wf(),
            time <= MAX_TIME,
            forall|b: ProcessBlock<I, O>| call_requires(f, (b,)),
        ensures
            final(self).wf(),
            final(self)@.election.current_term >= old(self)@.election.current_term,
            final(self)@.id == old(self)@.id,
            final(self)@.color == old(self)@.color,
            final(self)@.input_mask == old(self)@.input_mask,
            final(self)@.output_mask == old(self)@.output_mask,
            final(self)@.input_jack_handles == old(self)@.input_jack_handles,
            final(self)@.output_jack_handles == old(self)@.output_jack_handles,
            r matches Ok(u) ==> u@.patch_state == final(self)@.patch_state,
            r matches Ok(u) ==> (time as int % 10000 != 0 ==> u@.dropped_packets == 0),
            r matches Ok(u) ==> (u@.dropped_packets != 0 ==> final(self)@.dropped_packets == 0),
    {
        match self.interface.poll(time) {
            Ok(_) => {},
            Err(Error::NoData) => {},
            Err(e) => {
                return Err(e);
            },
        }
        let mut levels_in: [i16; I] = [0i16; I];
        let mut levels_out: [i16; O] = [0i16; O];
        if self.interface.can_send() {
            match self.interface.recv_directive() {
                Ok(bytes) => {
                    match decode_directive(bytes.as_slice()) {
                        Some(Directive::GlobalStateUpdate(gsu)) => {
                            self.process_gsu(gsu, time);
                        },
                        Some(d) => {
                            let resp = self.drive_election(Some(d), time, entropy);
                            if let Some(resp_d) = resp {
                                match self.send_directive(&resp_d) {
                                    Ok(_) => {},
                                    Err(e) => {
                                        return Err(e);
                                    },
                                }
                                if let Directive::GlobalStateUpdate(gsu) = resp_d {
                                    // Some transports do not loop multicast back to the
                                    // sender, so the leader applies its own decision here.
                                    self.process_gsu(gsu, time);
                                }
                            }
                        },
                        None => {},
                    }
                },
                Err(_) => {},
            }
            let resp2 = self.drive_election(None, time, entropy);
            if let Some(resp_d) = resp2 {
                match self.send_directive(&resp_d) {
                    Ok(_) => {},
                    Err(e) => {
                        return Err(e);
                    },
                }
                if let Directive::GlobalStateUpdate(gsu) = resp_d {
                    self.process_gsu(gsu, time);
                }
            }
        } else {
            self.leader_election.reset(time, entropy);
        }
        let ghost snap = self@;
        let mut block = ProcessBlock::<I, O>::new();
        let mut i: usize = 0;
        {
            while i < I
                invariant
                    i <= I,
                    self.wf(),
                    self@.election == snap.election,
                    self@.id == snap.id,
                    self@.color == snap.color,
                    self@.input_mask == snap.input_mask,
                    self@.output_mask == snap.output_mask,
                    self@.input_jack_handles == snap.input_jack_handles,
                    self@.output_jack_handles == snap.output_jack_handles,
                    self@.patch_state == snap.patch_state,
                decreases I - i,
            {
                match self.interface.jack_recv(i) {
                    Ok(bytes) => {
                        match packet_from_bytes(bytes.as_slice()) {
                            Some(p) => {
                                block.input[i] = p;
                                let a = p.avg();
                                levels_in[i] = a as i16;
                            },
                            None => {
                                self.bump_dropped();
                            },
                        }
                    },
                    Err(_) => {
                        self.bump_dropped();
                    },
                }
                i += 1;
            }
            let out_block = f(block);
            let mut o: usize = 0;
            while o < O
                invariant
                    o <= O,
                    self.wf(),
                    self@.election == snap.election,
                    self@.id == snap.id,
                    self@.color == snap.color,
                    self@.input_mask == snap.input_mask,
                    self@.output_mask == snap.output_mask,
                    self@.input_jack_handles == snap.input_jack_handles,
                    self@.output_jack_handles == snap.output_jack_handles,
                    self@.patch_state == snap.patch_state,
                decreases O - o,
            {
                let a = out_block.output[o].avg();
                levels_out[o] = a as i16;
                let bytes = packet_to_bytes(&out_block.output[o]);
                match self.interface.jack_send(o, bytes.as_slice()) {
                    Ok(_) => {},
                    Err(_) => {
                        self.bump_dropped();
                    },
                }
                o += 1;
            }
        }
        match self.interface.poll(time) {
            Ok(_) => {},
            Err(Error::NoData) => {},
            Err(e) => {
                return Err(e);
            },
        }
        let report: u32 = if time % 10000 == 0 && self.dropped_packets != 0 {
            let d = self.dropped_packets;
            self.dropped_packets = 0;
            d
        } else {
            0
        };
        let mut in_colors: [JackColor; I] = [JackColor { hue: 0, level: 0 }; I];
        let mut k: usize = 0;
        while k < I
            invariant
                k <= I,
            decreases I - k,
        {
            in_colors[k] = JackColor { hue: self.input_colors[k], level: levels_in[k] };
            k += 1;
        }
        let mut out_colors: [JackColor; O] = [JackColor { hue: 0, level: 0 }; O];
        let mut k2: usize = 0;
        while k2 < O
            invariant
                k2 <= O,
            decreases O - k2,
        {
            out_colors[k2] = JackColor { hue: self.color, level: levels_out[k2] };
            k2 += 1;
        }
        Ok(
            PollUpdate {
                patch_state: self.patch_state,
                input_colors: in_colors,
                output_colors: out_colors,
                dropped_packets: report,
            },
        )
    }

    fn toggle_input_jack(&mut self, jack_id: usize, output: HeldOutputJack, time: i64)
        requires
            old(self).wf(),
            jack_id < I,
        ensures
            final(self).wf(),
            final(self)@.patch_state == old(self)@.patch_state,
            final(self)@.id == old(self)@.id,
            final(self)@.color == old(self)@.color,
            final(self)@.election == old(self)@.election,
            final(self)@.input_mask == old(self)@.input_mask,
            final(self)@.output_mask == old(self)@.output_mask,
            final(self)@.input_jack_handles == old(self)@.input_jack_handles,
            final(self)@.output_jack_handles == old(self)@.output_jack_handles,
            final(self)@.dropped_packets == old(self)@.dropped_packets,
            final(self)@.input_colors == old(self)@.input_colors || final(self)@.input_colors
                == old(self)@.input_colors.update(jack_id as int, output.color),
    {
        match self.interface.jack_connect(jack_id, output.addr, time) {
            Ok(()) => {
                self.input_colors[jack_id] = output.color;
                proof {
                    assert(self@.input_colors =~= old(self)@.input_colors.update(
                        jack_id as int,
                        output.color,
                    ));
                }
            },
            Err(_) => {},
        }
    }
}

} // verus!
