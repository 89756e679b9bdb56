//! One decoded 32-byte frame: a sample of the eight channels of one board
//! half together with the motion sensor's three axes.

use vstd::prelude::*;
use vstd::slice::slice_subrange;
use crate::codec::{i24_value, i24toi32, u16_from_le, u16_le_value};

verus! {

/// Length in bytes of every frame on the wire.
pub const FRAME_LEN: usize = 32;

/// The decoded form of one frame.
#[derive(Debug, Clone, Copy, PartialEq, Eq, Structural)]
pub struct Packet {
    /// Byte 0: the raw frame counter.
    pub counter: u8,
    /// Byte 1: the sample number, whose parity decides the pairing role.
    pub sample_number: u8,
    /// Bytes 2-4.
    pub chan_1: i32,
    /// Bytes 5-7.
    pub chan_2: i32,
    /// Bytes 8-10.
    pub chan_3: i32,
    /// Bytes 11-13.
    pub chan_4: i32,
    /// Bytes 14-16.
    pub chan_5: i32,
    /// Bytes 17-19.
    pub chan_6: i32,
    /// Bytes 20-22.
    pub chan_7: i32,
    /// Bytes 23-25.
    pub chan_8: i32,
    /// Bytes 26-27, little-endian.
    pub acc_x: u16,
    /// Bytes 28-29, little-endian.
    pub acc_y: u16,
    /// Bytes 30-31, little-endian.
    pub acc_z: u16,
}

/// The channel sample whose three bytes start at `at`.
pub open spec fn channel_at(frame: Seq<u8>, at: int) -> int {
    i24_value(frame[at], frame[at + 1], frame[at + 2])
}

/// The motion sample whose two bytes start at `at`.
pub open spec fn motion_at(frame: Seq<u8>, at: int) -> int {
    u16_le_value(frame[at], frame[at + 1])
}

/// What a packet must hold to be the decoding of `frame`.
pub open spec fn decodes(frame: Seq<u8>, packet: Packet) -> bool {
    &&& packet.counter == frame[0]
    &&& packet.sample_number == frame[1]
    &&& packet.chan_1 == channel_at(frame, 2)
    &&& packet.chan_2 == channel_at(frame, 5)
    &&& packet.chan_3 == channel_at(frame, 8)
    &&& packet.chan_4 == channel_at(frame, 11)
    &&& packet.chan_5 == channel_at(frame, 14)
    &&& packet.chan_6 == channel_at(frame, 17)
    &&& packet.chan_7 == channel_at(frame, 20)
    &&& packet.chan_8 == channel_at(frame, 23)
    &&& packet.acc_x == motion_at(frame, 26)
    &&& packet.acc_y == motion_at(frame, 28)
    &&& packet.acc_z == motion_at(frame, 30)
}

/// The packet that a 32-byte frame decodes to.
pub open spec fn decode_frame(frame: Seq<u8>) -> Packet {
    Packet {
        counter: frame[0],
        sample_number: frame[1],
        chan_1: channel_at(frame, 2) as i32,
        chan_2: channel_at(frame, 5) as i32,
        chan_3: channel_at(frame, 8) as i32,
        chan_4: channel_at(frame, 11) as i32,
        chan_5: channel_at(frame, 14) as i32,
        chan_6: channel_at(frame, 17) as i32,
        chan_7: channel_at(frame, 20) as i32,
        chan_8: channel_at(frame, 23) as i32,
        acc_x: motion_at(frame, 26) as u16,
        acc_y: motion_at(frame, 28) as u16,
        acc_z: motion_at(frame, 30) as u16,
    }
}

/// `decode_frame` loses nothing: every field holds its sample exactly, and it
/// is the only packet that does.
pub proof fn lemma_decode_frame_exact(frame: Seq<u8>)
    requires
        frame.len() == FRAME_LEN,
    ensures
        decodes(frame, decode_frame(frame)),
        forall|p: Packet| decodes(frame, p) ==> p == decode_frame(frame),
{
}

fn channel(bytes: &[u8; 32], at: usize) -> (value: i32)
    requires
        at + 3 <= 32,
    ensures
        value == channel_at(bytes@, at as int),
{
    let field = slice_subrange(bytes.as_slice(), at, at + 3);
    i24toi32(field)
}

impl Packet {
    /// Decodes one frame.
    pub fn from_bytes(bytes: &[u8; 32]) -> (packet: Self)
        ensures
            packet == decode_frame(bytes@),
            decodes(bytes@, packet),
    {
        Self {
            counter: bytes[0],
            sample_number: bytes[1],
            chan_1: channel(bytes, 2),
            chan_2: channel(bytes, 5),
            chan_3: channel(bytes, 8),
            chan_4: channel(bytes, 11),
            chan_5: channel(bytes, 14),
            chan_6: channel(bytes, 17),
            chan_7: channel(bytes, 20),
            chan_8: channel(bytes, 23),
            acc_x: u16_from_le(bytes[26], bytes[27]),
            acc_y: u16_from_le(bytes[28], bytes[29]),
            acc_z: u16_from_le(bytes[30], bytes[31]),
        }
    }

    /// Whether the sample number is odd: such a packet opens a pair.
    pub open spec fn is_odd(self) -> bool {
        self.sample_number % 2 == 1
    }
}

} // verus!
