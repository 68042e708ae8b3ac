//! Plain-value model of the payloads the external media engine delivers for
//! one tick, before any identity resolution.

use vstd::prelude::*;

verus! {

/// The payload bytes of a packet: the window between `offset` and the end
/// padding, or empty when the claimed window is degenerate.
pub open spec fn payload_window(packet: Seq<u8>, offset: int, end_pad: int) -> Seq<u8> {
    if end_pad <= packet.len() && offset < packet.len() - end_pad {
        packet.subrange(offset, packet.len() - end_pad)
    } else {
        Seq::<u8>::empty()
    }
}

/// Raw transport data of one received packet, as reported by the engine.
#[derive(Debug, Clone)]
pub struct RtpData {
    pub sequence: u16,
    pub timestamp: u32,
    pub payload: Vec<u8>,
    pub packet: Vec<u8>,
}

impl RtpData {
    /// Build the transport record from the whole packet and the engine's
    /// payload offsets, extracting the payload window.
    pub fn from_packet(sequence: u16, timestamp: u32, packet: Vec<u8>, payload_offset: usize, payload_end_pad: usize) -> (r: RtpData)
        ensures
            r.sequence == sequence,
            r.timestamp == timestamp,
            r.packet@ == packet@,
            r.payload@ == payload_window(packet@, payload_offset as int, payload_end_pad as int),
    {
        let len: usize = packet.len();
        let mut payload: Vec<u8> = Vec::new();
        if payload_end_pad <= len && payload_offset < len - payload_end_pad {
            let end: usize = len - payload_end_pad;
            let mut i: usize = payload_offset;
            while i < end
                invariant
                    payload_offset <= i <= end <= packet@.len(),
                    payload@ == packet@.subrange(payload_offset as int, i as int),
                decreases end - i,
            {
                payload.push(packet[i]);
                i = i + 1;
                proof {
                    assert(payload@ =~= packet@.subrange(payload_offset as int, i as int));
                }
            }
        }
        proof {
            assert(payload@ =~= payload_window(
                packet@,
                payload_offset as int,
                payload_end_pad as int,
            ));
        }
        RtpData { sequence, timestamp, payload, packet }
    }
}

/// The little-endian low byte of a sample.
pub open spec fn le_lo(x: i16) -> u8 {
    (x & 0xff) as u8
}

/// The little-endian high byte of a sample.
pub open spec fn le_hi(x: i16) -> u8 {
    ((x >> 8) & 0xff) as u8
}

/// The little-endian byte serialisation of a sample sequence: two bytes per
/// sample, low byte first.
pub open spec fn le_bytes(s: Seq<i16>) -> Seq<u8> {
    Seq::new(2 * s.len(), |i: int| if i % 2 == 0 {
        le_lo(s[i / 2])
    } else {
        le_hi(s[i / 2])
    })
}

/// What the engine reported for one speaking source in one tick: the raw
/// packet, if kept, and the decoded samples, absent when the frame could not
/// be decoded (e.g. packet loss).
#[derive(Debug, Clone)]
pub struct VoiceData {
    pub packet: Option<RtpData>,
    pub decoded_voice: Option<Vec<i16>>,
}

impl VoiceData {
    /// The decoded samples serialised as little-endian bytes, when present.
    pub fn decoded_voice_bytes(&self) -> (r: Option<Vec<u8>>)
        ensures
            match r {
                Some(b) => self.decoded_voice is Some && b@ == le_bytes(
                    self.decoded_voice->0@,
                ),
                None => self.decoded_voice is None,
            },
    {
        match &self.decoded_voice {
            None => None,
            Some(samples) => {
                let mut bytes: Vec<u8> = Vec::new();
                let mut i: usize = 0;
                while i < samples.len()
                    invariant
                        i <= samples@.len(),
                        bytes@ == le_bytes(samples@.take(i as int)),
                    decreases samples@.len() - i,
                {
                    let x: i16 = samples[i];
                    proof {
                        assert(x & 0xff >= 0 && x & 0xff < 256) by (bit_vector);
                        assert((x >> 8) & 0xff >= 0 && (x >> 8) & 0xff < 256) by (bit_vector);
                    }
                    bytes.push((x & 0xff) as u8);
                    bytes.push(((x >> 8) & 0xff) as u8);
                    i = i + 1;
                    proof {
                        assert(bytes@ =~= le_bytes(samples@.take(i as int)));
                    }
                }
                proof {
                    assert(samples@.take(samples@.len() as int) =~= samples@);
                }
                Some(bytes)
            },
        }
    }
}

/// One raw tick from the engine: per-source payloads for sources with
/// activity, plus the sources the engine reports as silent this interval.
#[derive(Debug, Clone)]
pub struct VoiceTick {
    pub speaking: Vec<(u32, VoiceData)>,
    pub silent: Vec<u32>,
}

} // verus!
