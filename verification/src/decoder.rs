//! The decoding pipeline of a running stream: bytes are gathered, framed,
//! decoded and paired, and whatever is not yet a whole frame or a whole pair
//! waits for the bytes to come.

use vstd::prelude::*;
use crate::framer::{extract_frames, frames, remainder};
use crate::packet::{decode_frame, Packet};
use crate::pairing::{
    empty_slots, is_matched_pair, lemma_run_emits_matched_pairs, run, PairingSlots,
};
use crate::reading::Reading;

verus! {

/// The bytes and the half pair that wait between two reads.
pub struct Decoder {
    buffer: Vec<u8>,
    slots: PairingSlots,
}

/// What a decoder holds, as plain values.
#[verifier::ext_equal]
pub struct DecoderView {
    /// The bytes received and not yet used up by a frame.
    pub buffered: Seq<u8>,
    /// The pairing slots.
    pub slots: PairingSlots,
}

impl View for Decoder {
    type V = DecoderView;

    closed spec fn view(&self) -> DecoderView {
        DecoderView { buffered: self.buffer@, slots: self.slots }
    }
}

/// A decoder that has seen nothing yet.
pub open spec fn fresh() -> DecoderView {
    DecoderView { buffered: Seq::empty(), slots: empty_slots() }
}

/// The packets that a sequence of frames decodes to.
pub open spec fn decoded(candidates: Seq<Seq<u8>>) -> Seq<Packet> {
    Seq::new(candidates.len(), |k: int| decode_frame(candidates[k]))
}

/// What taking in `bytes` does: they join the buffered bytes, every
/// candidate frame among them is decoded and handed to the pairing machine,
/// and the bytes behind the last frame stay buffered. The result is the new
/// state and the readings that left, oldest first.
pub open spec fn absorb(state: DecoderView, bytes: Seq<u8>) -> (DecoderView, Seq<Reading>) {
    let gathered = state.buffered + bytes;
    let (slots, readings) = run(state.slots, decoded(frames(gathered)));
    (DecoderView { buffered: remainder(gathered), slots }, readings)
}

fn append(buffer: &mut Vec<u8>, bytes: &[u8])
    ensures
        final(buffer)@ == old(buffer)@ + bytes@,
{
    let mut i: usize = 0;
    while i < bytes.len()
        invariant
            0 <= i <= bytes@.len(),
            buffer@ == old(buffer)@ + bytes@.take(i as int),
        decreases bytes@.len() - i,
    {
        buffer.push(bytes[i]);
        assert(bytes@.take(i + 1) =~= bytes@.take(i as int).push(bytes@[i as int]));
        i += 1;
    }
    assert(bytes@.take(i as int) =~= bytes@);
}

fn decode_all(candidates: &Vec<[u8; 32]>) -> (packets: Vec<Packet>)
    ensures
        packets@ == decoded(candidates.deep_view()),
{
    let mut packets: Vec<Packet> = Vec::new();
    let mut i: usize = 0;
    while i < candidates.len()
        invariant
            0 <= i <= candidates@.len(),
            packets@.len() == i,
            forall|k: int| 0 <= k < i ==> packets@[k] == decode_frame((#[trigger] candidates@[k])@),
        decreases candidates@.len() - i,
    {
        packets.push(Packet::from_bytes(&candidates[i]));
        i += 1;
    }
    proof {
        let wanted = decoded(candidates.deep_view());
        assert forall|k: int| 0 <= k < wanted.len() implies packets@[k] == wanted[k] by {
            assert(candidates.deep_view()[k] == candidates@[k].deep_view());
            assert(candidates@[k].deep_view() =~= candidates@[k]@);
        }
        assert(packets@ =~= wanted);
    }
    packets
}

impl Decoder {
    /// A decoder that has seen nothing yet.
    pub fn new() -> (decoder: Self)
        ensures
            decoder@ == fresh(),
    {
        Decoder { buffer: Vec::new(), slots: PairingSlots::new() }
    }

    /// Takes in the bytes of one read, of any length, and returns the
    /// readings that they complete, oldest first.
    pub fn feed(&mut self, bytes: &[u8]) -> (readings: Vec<Reading>)
        ensures
            (final(self)@, readings@) == absorb(old(self)@, bytes@),
            old(self)@.slots.well_formed() ==> {
                &&& final(self)@.slots.well_formed()
                &&& forall|k: int|
                    0 <= k < readings@.len() ==> is_matched_pair(#[trigger] readings@[k])
            },
    {
        append(&mut self.buffer, bytes);
        let candidates = extract_frames(&mut self.buffer);
        let packets = decode_all(&candidates);
        let ghost before = self.slots;
        let readings = self.slots.feed(packets.as_slice());
        proof {
            if before.well_formed() {
                lemma_run_emits_matched_pairs(before, packets@);
                assert(readings@ == run(before, packets@).1);
            }
        }
        readings
    }

    /// How many bytes wait for the rest of their frame.
    pub fn buffered_len(&self) -> (len: usize)
        ensures
            len == self@.buffered.len(),
    {
        self.buffer.len()
    }

    /// The pairing slots as they stand.
    pub fn slots(&self) -> (slots: PairingSlots)
        ensures
            slots == self@.slots,
    {
        self.slots
    }
}

} // verus!
