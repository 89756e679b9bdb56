//! The unit handed to consumers: one sample of all sixteen channels, merged
//! from the two packets of a pair.

use vstd::prelude::*;
use crate::packet::Packet;

verus! {

/// One complete sixteen-channel sample.
#[derive(Debug, Clone, Copy, PartialEq, Eq)]
pub struct Reading {
    /// Sample numbers of the two packets, the odd one first.
    pub sample_numbers: (u8, u8),
    pub chan_1: i32,
    pub chan_2: i32,
    pub chan_3: i32,
    pub chan_4: i32,
    pub chan_5: i32,
    pub chan_6: i32,
    pub chan_7: i32,
    pub chan_8: i32,
    pub chan_9: i32,
    pub chan_10: i32,
    pub chan_11: i32,
    pub chan_12: i32,
    pub chan_13: i32,
    pub chan_14: i32,
    pub chan_15: i32,
    pub chan_16: i32,
    pub acc_x: u16,
    pub acc_y: u16,
    pub acc_z: u16,
}

/// The reading that a pair of packets makes: channels 1 to 8 come from the
/// first packet, channels 9 to 16 and the motion sample from the second.
pub open spec fn merge(first: Packet, second: Packet) -> Reading {
    Reading {
        sample_numbers: (first.sample_number, second.sample_number),
        chan_1: first.chan_1,
        chan_2: first.chan_2,
        chan_3: first.chan_3,
        chan_4: first.chan_4,
        chan_5: first.chan_5,
        chan_6: first.chan_6,
        chan_7: first.chan_7,
        chan_8: first.chan_8,
        chan_9: second.chan_1,
        chan_10: second.chan_2,
        chan_11: second.chan_3,
        chan_12: second.chan_4,
        chan_13: second.chan_5,
        chan_14: second.chan_6,
        chan_15: second.chan_7,
        chan_16: second.chan_8,
        acc_x: second.acc_x,
        acc_y: second.acc_y,
        acc_z: second.acc_z,
    }
}

impl Reading {
    /// Merges a pair of packets into one reading.
    pub fn from_packets(packets: [Packet; 2]) -> (reading: Self)
        ensures
            reading == merge(packets@[0], packets@[1]),
    {
        Self {
            sample_numbers: (packets[0].sample_number, packets[1].sample_number),
            chan_1: packets[0].chan_1,
            chan_2: packets[0].chan_2,
            chan_3: packets[0].chan_3,
            chan_4: packets[0].chan_4,
            chan_5: packets[0].chan_5,
            chan_6: packets[0].chan_6,
            chan_7: packets[0].chan_7,
            chan_8: packets[0].chan_8,
            chan_9: packets[1].chan_1,
            chan_10: packets[1].chan_2,
            chan_11: packets[1].chan_3,
            chan_12: packets[1].chan_4,
            chan_13: packets[1].chan_5,
            chan_14: packets[1].chan_6,
            chan_15: packets[1].chan_7,
            chan_16: packets[1].chan_8,
            acc_x: packets[1].acc_x,
            acc_y: packets[1].acc_y,
            acc_z: packets[1].acc_z,
        }
    }
}

} // verus!
