use apiary_core::audio::{
    AUDIO_PACKET_BYTES, AudioFrame, AudioPacket, fpmul, midi_note_to_voct, packet_from_bytes,
    packet_to_bytes,
};
use apiary_core::module::{Error, Network};
use apiary_core::{Module, NodeId, PatchState};
use std::cell::Cell;
use std::rc::Rc;

#[test]
fn it_works() {
    let result = 2 + 2;
    assert_eq!(result, 4);
}

#[test]
fn midi_note_values() {
    assert_eq!(midi_note_to_voct(64), 0);
    assert_eq!(midi_note_to_voct(65), 512);
    assert_eq!(midi_note_to_voct(127), 32256);
    assert_eq!(midi_note_to_voct(0), -32768);
}

#[test]
fn fpmul_values() {
    assert_eq!(fpmul(256, 256), 1);
    assert_eq!(fpmul(16384, 16384), 4096);
    assert_eq!(fpmul(-256, 256), -1);
    assert_eq!(fpmul(32767, 32767), 16383);
    assert_eq!(fpmul(-32768, -32767), 16383);
    assert_eq!(fpmul(0, 12345), 0);
}

#[test]
fn node_id_round_trip() {
    let a = NodeId::from_bytes(b"module-a").unwrap();
    let b = NodeId::from_bytes(b"module-b").unwrap();
    let a2 = NodeId::from_bytes(b"module-a").unwrap();
    assert!(a.eq_id(&a2));
    assert!(!a.eq_id(&b));
    assert_eq!(a.len(), 8);
    assert_eq!(a.to_vec(), b"module-a".to_vec());
    assert_eq!(a.byte_at(0), b'm');
}

#[test]
fn node_id_too_long() {
    let long = [7u8; 49];
    assert!(NodeId::from_bytes(&long).is_none());
    let max = [7u8; 48];
    assert!(NodeId::from_bytes(&max).is_some());
}

#[test]
fn audio_packet_round_trip() {
    let mut p = AudioPacket::new();
    for bl in 0..48 {
        let mut data = [0i16; 8];
        for ch in 0..8 {
            data[ch] = (bl as i16 * 67 - 1000) * (ch as i16 + 1) % 32000;
        }
        p.data[bl] = AudioFrame { data };
    }
    let bytes = packet_to_bytes(&p);
    assert_eq!(bytes.len(), AUDIO_PACKET_BYTES);
    let q = packet_from_bytes(&bytes).unwrap();
    assert_eq!(p, q);
}

#[test]
fn audio_packet_bad_length() {
    assert!(packet_from_bytes(&[0u8; 767]).is_none());
    assert!(packet_from_bytes(&[0u8; 769]).is_none());
    assert!(packet_from_bytes(&[]).is_none());
    assert!(packet_from_bytes(&[0u8; 768]).is_some());
}

#[test]
fn audio_packet_avg() {
    let mut p = AudioPacket::new();
    assert_eq!(p.avg(), 0);
    for bl in 0..48 {
        p.data[bl] = AudioFrame { data: [384i16; 8] };
    }
    assert_eq!(p.avg(), 384);
    for bl in 0..48 {
        p.data[bl] = AudioFrame { data: [-768i16; 8] };
    }
    assert_eq!(p.avg(), -768);
}

struct IdleNet;

impl Network for IdleNet {
    fn poll(&mut self, _time: i64) -> Result<bool, Error> {
        Ok(true)
    }
    fn can_send(&mut self) -> bool {
        true
    }
    fn recv_directive(&mut self) -> Result<Vec<u8>, Error> {
        Err(Error::NoData)
    }
    fn send_directive(&mut self, _buf: &[u8]) -> Result<(), Error> {
        Ok(())
    }
    fn jack_connect(&mut self, _j: usize, _addr: [u8; 4], _time: i64) -> Result<(), Error> {
        Ok(())
    }
    fn jack_recv(&mut self, _j: usize) -> Result<Vec<u8>, Error> {
        Err(Error::NoData)
    }
    fn jack_send(&mut self, _j: usize, _buf: &[u8]) -> Result<(), Error> {
        Ok(())
    }
    fn jack_addr(&mut self, _j: usize) -> Result<[u8; 4], Error> {
        Ok([239, 9, 9, 9])
    }
    fn jack_disconnect(&mut self, _j: usize, _time: i64) -> Result<(), Error> {
        Ok(())
    }
}

#[test]
fn jack_pool_is_bounded() {
    let id = NodeId::from_bytes(b"pool").unwrap();
    let mut m: Module<IdleNet, 2, 2> = Module::new(IdleNet, id, 3, 0, 0);
    assert!(m.add_input_jack().is_ok());
    assert!(m.add_input_jack().is_ok());
    assert_eq!(m.add_input_jack().unwrap_err(), Error::StorageFull);
    assert!(m.add_output_jack().is_ok());
    assert!(m.add_output_jack().is_ok());
    assert_eq!(m.add_output_jack().unwrap_err(), Error::StorageFull);
}

#[test]
fn hold_and_release_jacks() {
    let id = NodeId::from_bytes(b"holder").unwrap();
    let mut m: Module<IdleNet, 2, 2> = Module::new(IdleNet, id, 3, 0, 0);
    let in0 = m.add_input_jack().unwrap();
    let out0 = m.add_output_jack().unwrap();
    assert!(m.set_input_patch_enabled(in0, true).is_ok());
    assert!(m.set_output_patch_enabled(out0, true).is_ok());
    assert!(m.set_input_patch_enabled(in0, false).is_ok());
    assert!(m.set_output_patch_enabled(out0, false).is_ok());
}

struct BrokenSendNet;

impl Network for BrokenSendNet {
    fn poll(&mut self, _time: i64) -> Result<bool, Error> {
        Ok(true)
    }
    fn can_send(&mut self) -> bool {
        true
    }
    fn recv_directive(&mut self) -> Result<Vec<u8>, Error> {
        Err(Error::NoData)
    }
    fn send_directive(&mut self, _buf: &[u8]) -> Result<(), Error> {
        Err(Error::Network)
    }
    fn jack_connect(&mut self, _j: usize, _addr: [u8; 4], _time: i64) -> Result<(), Error> {
        Ok(())
    }
    fn jack_recv(&mut self, _j: usize) -> Result<Vec<u8>, Error> {
        Err(Error::NoData)
    }
    fn jack_send(&mut self, _j: usize, _buf: &[u8]) -> Result<(), Error> {
        Ok(())
    }
    fn jack_addr(&mut self, _j: usize) -> Result<[u8; 4], Error> {
        Err(Error::InvalidJackId)
    }
    fn jack_disconnect(&mut self, _j: usize, _time: i64) -> Result<(), Error> {
        Ok(())
    }
}

#[test]
fn directive_send_failure_is_surfaced() {
    let id = NodeId::from_bytes(b"broken").unwrap();
    let mut m: Module<BrokenSendNet, 1, 1> = Module::new(BrokenSendNet, id, 3, 0, 0);
    // Quiet ticks succeed: nothing needs the control channel yet.
    assert!(m.poll(10, 0, |b| b).is_ok());
    // Once the election timeout fires the node must broadcast a vote
    // request, and the dead channel turns the whole tick into an error.
    assert_eq!(m.poll(400, 0, |b| b).unwrap_err(), Error::Network);
}

#[test]
fn jack_addr_failure_is_surfaced() {
    let id = NodeId::from_bytes(b"broken").unwrap();
    let mut m: Module<BrokenSendNet, 1, 1> = Module::new(BrokenSendNet, id, 3, 0, 0);
    let out0 = m.add_output_jack().unwrap();
    // Holding the single output needs its group address from the transport.
    assert_eq!(m.set_output_patch_enabled(out0, true).unwrap_err(), Error::InvalidJackId);
    // An input hold alone never needs the transport.
    let mut m2: Module<BrokenSendNet, 1, 1> = Module::new(BrokenSendNet, id, 3, 0, 0);
    let in0 = m2.add_input_jack().unwrap();
    assert!(m2.set_input_patch_enabled(in0, true).is_ok());
}

struct QuietNet {
    can_send: bool,
    poll_no_data: bool,
}

impl Network for QuietNet {
    fn poll(&mut self, _time: i64) -> Result<bool, Error> {
        if self.poll_no_data {
            Err(Error::NoData)
        } else {
            Ok(true)
        }
    }
    fn can_send(&mut self) -> bool {
        self.can_send
    }
    fn recv_directive(&mut self) -> Result<Vec<u8>, Error> {
        Err(Error::NoData)
    }
    fn send_directive(&mut self, _buf: &[u8]) -> Result<(), Error> {
        Ok(())
    }
    fn jack_connect(&mut self, _j: usize, _addr: [u8; 4], _time: i64) -> Result<(), Error> {
        Ok(())
    }
    fn jack_recv(&mut self, _j: usize) -> Result<Vec<u8>, Error> {
        Err(Error::NoData)
    }
    fn jack_send(&mut self, _j: usize, _buf: &[u8]) -> Result<(), Error> {
        Ok(())
    }
    fn jack_addr(&mut self, _j: usize) -> Result<[u8; 4], Error> {
        Ok([239, 9, 9, 9])
    }
    fn jack_disconnect(&mut self, _j: usize, _time: i64) -> Result<(), Error> {
        Ok(())
    }
}

#[test]
fn processor_runs_every_tick() {
    let id = NodeId::from_bytes(b"muted").unwrap();
    let mut m: Module<QuietNet, 1, 1> =
        Module::new(QuietNet { can_send: false, poll_no_data: false }, id, 3, 0, 0);
    // Even with the control channel down, the audio path and its callback
    // run once per tick.
    let ran = Rc::new(Cell::new(false));
    let flag = ran.clone();
    m.poll(10, 0, move |b| {
        flag.set(true);
        b
    })
    .unwrap();
    assert!(ran.get());
}

#[test]
fn transport_no_data_is_not_escalated() {
    let id = NodeId::from_bytes(b"muted").unwrap();
    let mut m: Module<QuietNet, 1, 1> =
        Module::new(QuietNet { can_send: true, poll_no_data: true }, id, 3, 0, 0);
    assert!(m.poll(10, 0, |b| b).is_ok());
}

#[test]
fn drop_counts_surface_at_report_ticks() {
    let id = NodeId::from_bytes(b"droppy").unwrap();
    let mut m: Module<QuietNet, 2, 0> =
        Module::new(QuietNet { can_send: true, poll_no_data: false }, id, 3, 0, 0);
    let _ = m.add_input_jack().unwrap();
    let _ = m.add_input_jack().unwrap();
    // Every tick drops one packet per input jack; between report ticks the
    // surfaced count stays zero.
    let u = m.poll(10, 0, |b| b).unwrap();
    assert_eq!(u.get_dropped_packets(), 0);
    let u = m.poll(20, 0, |b| b).unwrap();
    assert_eq!(u.get_dropped_packets(), 0);
    // At a report tick the accumulated count is surfaced and cleared.
    let u = m.poll(10000, 0, |b| b).unwrap();
    assert_eq!(u.get_dropped_packets(), 6);
    let u = m.poll(10010, 0, |b| b).unwrap();
    assert_eq!(u.get_dropped_packets(), 0);
    // The next report holds only what accumulated since.
    let u = m.poll(20000, 0, |b| b).unwrap();
    assert_eq!(u.get_dropped_packets(), 4);
}

#[test]
fn apa102_builder_chain() {
    let strip = apiary_core::apa102::Apa102::new(())
        .end_frame_length(8)
        .invert_end_frame(true)
        .pixel_order(apiary_core::apa102::PixelOrder::RGB);
    let mut strip = strip;
    strip.set_intensity(0x80);
    strip.set_intensity(0xFF);
}

#[test]
fn poll_reports_idle() {
    let id = NodeId::from_bytes(b"idler").unwrap();
    let mut m: Module<IdleNet, 1, 1> = Module::new(IdleNet, id, 3, 0, 0);
    let _in0 = m.add_input_jack().unwrap();
    let _out0 = m.add_output_jack().unwrap();
    let update = m.poll(10, 0, |b| b).unwrap();
    assert_eq!(update.get_patch_state(), PatchState::Idle);
    assert_eq!(update.get_dropped_packets(), 0);
}
