//! Audio frames and their datagram layout.
//!
//! Audio travels between jacks as fixed-size packets: [`BLOCK_SIZE`] frames
//! of [`CHANNELS`] signed 16-bit samples. On the wire a packet is exactly
//! [`AUDIO_PACKET_BYTES`] bytes, every sample little-endian, and the
//! conversion in each direction is a checked, explicitly indexed copy whose
//! contract pins every byte.

use vstd::prelude::*;

verus! {

/// Samples per frame.
pub const CHANNELS: usize = 8;

/// Frames per packet.
pub const BLOCK_SIZE: usize = 48;

/// Samples per packet.
pub const SAMPLES_PER_PACKET: usize = 384;

/// Bytes in one encoded packet.
pub const AUDIO_PACKET_BYTES: usize = 768;

/// One sample: signed 16-bit PCM.
pub type SampleType = i16;

/// One multichannel audio frame.
#[derive(Clone, Copy, Debug, PartialEq)]
pub struct AudioFrame {
    pub data: [SampleType; 8],
}

/// One block of frames, the unit sent per jack per tick.
#[derive(Clone, Copy, Debug, PartialEq)]
pub struct AudioPacket {
    pub data: [AudioFrame; 48],
}

/// The sample stored at flat index `i` of an encoded packet.
pub open spec fn sample_at(b: Seq<u8>, i: int) -> i16 {
    ((b[2 * i] as int + 256 * (b[2 * i + 1] as int)) as u16) as i16
}

/// Every sample of `p` stands at its flat position in `b`.
pub open spec fn packet_encoded(p: AudioPacket, b: Seq<u8>) -> bool {
    &&& b.len() == AUDIO_PACKET_BYTES
    &&& forall|bl: int, ch: int|
        0 <= bl < 48 && 0 <= ch < 8 ==> p.data@[bl].data@[ch] == sample_at(b, 8 * bl + ch)
}

impl AudioPacket {
    /// The all-zero packet.
    pub fn new() -> (r: AudioPacket)
        ensures
            forall|bl: int, ch: int| 0 <= bl < 48 && 0 <= ch < 8 ==> r.data@[bl].data@[ch] == 0i16,
    {
        AudioPacket { data: [AudioFrame { data: [0i16; 8] }; 48] }
    }

    /// Sum of every sample in the packet.
    pub open spec fn sample_total_upto(self, n: int) -> int
        decreases n,
    {
        if n <= 0 {
            0
        } else {
            self.sample_total_upto(n - 1) + self.data@[(n - 1) / 8].data@[(n - 1) % 8]
        }
    }

    /// Mean sample value, truncated toward zero; display scaling is the
    /// caller's affair.
    pub fn avg(&self) -> (r: i64)
        ensures
            ({
                let s = self.sample_total_upto(SAMPLES_PER_PACKET as int);
                if s >= 0 {
                    r == s / 384
                } else {
                    r == -((-s) / 384)
                }
            }),
            -32768 <= r <= 32767,
    {
        let mut sum: i64 = 0;
        let mut i: usize = 0;
        while i < SAMPLES_PER_PACKET
            invariant
                i <= SAMPLES_PER_PACKET,
                sum == self.sample_total_upto(i as int),
                -32768 * i <= sum <= 32767 * i,
            decreases SAMPLES_PER_PACKET - i,
        {
            let bl = i / 8;
            let ch = i % 8;
            sum = sum + self.data[bl].data[ch] as i64;
            i += 1;
        }
        if sum >= 0 {
            sum / 384
        } else {
            -((-sum) / 384)
        }
    }
}

impl Default for AudioPacket {
    /// The all-zero packet.
    fn default() -> (r: AudioPacket)
        ensures
            forall|bl: int, ch: int| 0 <= bl < 48 && 0 <= ch < 8 ==> r.data@[bl].data@[ch] == 0i16,
    {
        AudioPacket::new()
    }
}

/// Encode one packet as its wire bytes, every sample little-endian.
pub fn packet_to_bytes(p: &AudioPacket) -> (r: Vec<u8>)
    ensures
        packet_encoded(*p, r@),
{
    let mut out: Vec<u8> = Vec::new();
    let mut i: usize = 0;
    while i < SAMPLES_PER_PACKET
        invariant
            i <= SAMPLES_PER_PACKET,
            out@.len() == 2 * i,
            forall|k: int| 0 <= k < i ==> p.data@[k / 8].data@[k % 8] == sample_at(out@, k),
        decreases SAMPLES_PER_PACKET - i,
    {
        let bl = i / 8;
        let ch = i % 8;
        let s: u16 = #[verifier::truncate] (p.data[bl].data[ch] as u16);
        let ghost out0 = out@;
        out.push((s % 256) as u8);
        out.push((s / 256) as u8);
        proof {
            assert forall|k: int| 0 <= k < i implies p.data@[k / 8].data@[k % 8] == sample_at(
                out@,
                k,
            ) by {
                assert(p.data@[k / 8].data@[k % 8] == sample_at(out0, k));
                assert(out@[2 * k] == out0[2 * k]);
                assert(out@[2 * k + 1] == out0[2 * k + 1]);
                assert(sample_at(out@, k) == sample_at(out0, k));
            }
            let xv = p.data@[i as int / 8].data@[i as int % 8];
            assert(((xv as u16) as i16) == xv) by (bit_vector);
            assert(out@[2 * i as int] == (s as int % 256) as u8);
            assert(out@[2 * i as int + 1] == (s as int / 256) as u8);
            assert(out@[2 * i as int] as int + 256 * (out@[2 * i as int + 1] as int) == s as int);
            assert(p.data@[i as int / 8].data@[i as int % 8] == sample_at(out@, i as int));
        }
        i += 1;
    }
    proof {
        assert forall|bl: int, ch: int| 0 <= bl < 48 && 0 <= ch < 8 implies p.data@[bl].data@[ch]
            == sample_at(out@, 8 * bl + ch) by {
            let k = 8 * bl + ch;
            assert(0 <= k < 384);
            assert(k / 8 == bl && k % 8 == ch);
        }
    }
    out
}

/// Decode wire bytes back into a packet; `None` unless the length is exactly
/// one packet.
pub fn packet_from_bytes(buf: &[u8]) -> (r: Option<AudioPacket>)
    ensures
        buf@.len() == AUDIO_PACKET_BYTES <==> r is Some,
        r matches Some(p) ==> packet_encoded(p, buf@),
{
    if buf.len() != AUDIO_PACKET_BYTES {
        return None;
    }
    let mut data = [AudioFrame { data: [0i16; 8] }; 48];
    let mut bl: usize = 0;
    while bl < BLOCK_SIZE
        invariant
            bl <= BLOCK_SIZE,
            buf@.len() == AUDIO_PACKET_BYTES,
            data@.len() == 48,
            forall|b: int, ch: int|
                0 <= b < bl && 0 <= ch < 8 ==> data@[b].data@[ch] == sample_at(buf@, 8 * b + ch),
        decreases BLOCK_SIZE - bl,
    {
        let mut samples = [0i16; 8];
        let mut ch: usize = 0;
        while ch < CHANNELS
            invariant
                ch <= CHANNELS,
                bl < BLOCK_SIZE,
                buf@.len() == AUDIO_PACKET_BYTES,
                samples@.len() == 8,
                forall|c: int| 0 <= c < ch ==> samples@[c] == sample_at(buf@, 8 * bl + c),
            decreases CHANNELS - ch,
        {
            let lo = buf[2 * (8 * bl + ch)];
            let hi = buf[2 * (8 * bl + ch) + 1];
            samples[ch] = (lo as u16 + 256 * (hi as u16)) as i16;
            ch += 1;
        }
        data[bl] = AudioFrame { data: samples };
        proof {
            assert forall|b: int, c: int| 0 <= b < bl + 1 && 0 <= c < 8 implies data@[b].data@[c]
                == sample_at(buf@, 8 * b + c) by {}
        }
        bl += 1;
    }
    Some(AudioPacket { data })
}

/// The control voltage a MIDI note number maps to: middle of the note range
/// at zero, 512 steps per semitone.
pub fn midi_note_to_voct(note: u8) -> (r: i16)
    requires
        note <= 127,
    ensures
        r == (note - 64) * 512,
{
    (note as i16 - 64) * 512
}

/// Signed 16.16 fixed-point multiply: the product scaled down by 2^16,
/// rounded toward negative infinity.
pub fn fpmul(x: i16, y: i16) -> (r: i16)
    ensures
        r == (x as int * y as int) / 65536,
{
    proof {
        assert(-0x40000000 <= x as int * y as int <= 0x40000000) by (nonlinear_arith);
    }
    let p: i32 = x as i32 * y as i32;
    let q: i32 = if p >= 0 {
        p / 65536
    } else {
        -((-p + 65535) / 65536)
    };
    proof {
        assert(q == p as int / 65536);
        assert(-32768 <= q <= 32767);
    }
    q as i16
}

} // verus!
