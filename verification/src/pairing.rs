//! The pairing state machine. The board sends each sixteen-channel sample as
//! two packets, an odd-numbered one followed by an even-numbered one. The
//! machine holds the odd packet until its partner arrives and drops whatever
//! cannot belong to a pair.

use vstd::prelude::*;
use crate::packet::Packet;
use crate::reading::{merge, Reading};

verus! {

/// The two holders of a pair in the making.
#[derive(Debug, Clone, Copy, PartialEq, Eq, Structural)]
pub struct PairingSlots {
    /// The odd-numbered packet that waits for its partner.
    pub slot_odd: Option<Packet>,
    /// The even-numbered partner. It is occupied only within a step: a full
    /// pair leaves at once as a reading.
    pub slot_even: Option<Packet>,
}

/// Both slots free.
pub open spec fn empty_slots() -> PairingSlots {
    PairingSlots { slot_odd: None, slot_even: None }
}

/// Where an arriving packet goes. An even packet without a waiting odd one
/// is dropped, and so is an odd packet that finds the odd slot taken.
pub open spec fn place(slots: PairingSlots, packet: Packet) -> PairingSlots {
    if slots.slot_odd is None {
        if packet.is_odd() {
            PairingSlots { slot_odd: Some(packet), ..slots }
        } else {
            slots
        }
    } else if !packet.is_odd() && slots.slot_even is None {
        PairingSlots { slot_even: Some(packet), ..slots }
    } else {
        slots
    }
}

/// A full pair leaves as one reading and frees both slots.
pub open spec fn collapse(slots: PairingSlots) -> (PairingSlots, Option<Reading>) {
    if slots.slot_odd is Some && slots.slot_even is Some {
        (empty_slots(), Some(merge(slots.slot_odd->0, slots.slot_even->0)))
    } else {
        (slots, None)
    }
}

/// One transition: place the packet, then let a full pair leave.
pub open spec fn step(slots: PairingSlots, packet: Packet) -> (PairingSlots, Option<Reading>) {
    collapse(place(slots, packet))
}

/// The transitions for a batch of packets, taken in arrival order: the slots
/// afterwards and the readings that left, oldest first.
pub open spec fn run(slots: PairingSlots, packets: Seq<Packet>) -> (PairingSlots, Seq<Reading>)
    decreases packets.len(),
{
    if packets.len() == 0 {
        (slots, Seq::empty())
    } else {
        let (before, readings) = run(slots, packets.drop_last());
        let (after, emitted) = step(before, packets.last());
        match emitted {
            Some(reading) => (after, readings.push(reading)),
            None => (after, readings),
        }
    }
}

/// Whether a reading is made of an odd packet and an even one, in this
/// order.
pub open spec fn is_matched_pair(reading: Reading) -> bool {
    reading.sample_numbers.0 % 2 == 1 && reading.sample_numbers.1 % 2 == 0
}

/// One step keeps the slots well formed. It gives a reading only when an
/// even packet meets the odd packet that waits; the reading is made of these
/// two, and both slots are free afterwards.
pub proof fn lemma_step_emits_matched_pairs(slots: PairingSlots, packet: Packet)
    requires
        slots.well_formed(),
    ensures
        step(slots, packet).0.well_formed(),
        step(slots, packet).1 is Some <==> slots.slot_odd is Some && !packet.is_odd(),
        step(slots, packet).1 matches Some(reading) ==> {
            &&& reading == merge(slots.slot_odd->0, packet)
            &&& is_matched_pair(reading)
            &&& step(slots, packet).0 == empty_slots()
        },
{
}

/// A batch keeps the slots well formed, and every reading that it gives is
/// made of an odd packet and an even one.
pub proof fn lemma_run_emits_matched_pairs(slots: PairingSlots, packets: Seq<Packet>)
    requires
        slots.well_formed(),
    ensures
        run(slots, packets).0.well_formed(),
        forall|k: int|
            0 <= k < run(slots, packets).1.len() ==> is_matched_pair(
                #[trigger] run(slots, packets).1[k],
            ),
    decreases packets.len(),
{
    if packets.len() > 0 {
        lemma_run_emits_matched_pairs(slots, packets.drop_last());
        lemma_step_emits_matched_pairs(run(slots, packets.drop_last()).0, packets.last());
    }
}

/// Running a batch in two parts gives what running it whole gives: how the
/// packets are split over batches changes neither the readings nor their
/// order.
pub proof fn lemma_run_concat(slots: PairingSlots, first: Seq<Packet>, second: Seq<Packet>)
    ensures
        run(slots, first + second) == ({
            let (between, early) = run(slots, first);
            let (after, late) = run(between, second);
            (after, early + late)
        }),
    decreases second.len(),
{
    let (between, early) = run(slots, first);
    if second.len() == 0 {
        assert(first + second =~= first);
        assert(early + Seq::<Reading>::empty() =~= early);
    } else {
        lemma_run_concat(slots, first, second.drop_last());
        assert((first + second).drop_last() =~= first + second.drop_last());
        let (before, late) = run(between, second.drop_last());
        match step(before, second.last()).1 {
            Some(reading) => {
                assert((early + late).push(reading) =~= early + late.push(reading));
            },
            None => {},
        }
    }
}

/// An odd packet followed by an even one gives exactly one reading, made of
/// the two, and leaves both slots free.
pub proof fn lemma_pair_gives_one_reading(odd: Packet, even: Packet)
    requires
        odd.is_odd(),
        !even.is_odd(),
    ensures
        run(empty_slots(), seq![odd, even]) == (empty_slots(), seq![merge(odd, even)]),
{
    let batch = seq![odd, even];
    assert(batch.drop_last() =~= seq![odd]);
    assert(seq![odd].drop_last() =~= Seq::<Packet>::empty());
    reveal_with_fuel(run, 3);
    assert(run(empty_slots(), batch).1 =~= seq![merge(odd, even)]);
}

/// An even packet that arrives first is dropped: it gives no reading and
/// stays in no slot. The pair behind it gives its reading as if the stray
/// packet had never come.
pub proof fn lemma_leading_even_is_dropped(stray: Packet, odd: Packet, even: Packet)
    requires
        !stray.is_odd(),
        odd.is_odd(),
        !even.is_odd(),
    ensures
        step(empty_slots(), stray) == (empty_slots(), None::<Reading>),
        run(empty_slots(), seq![stray, odd, even]) == (empty_slots(), seq![merge(odd, even)]),
{
    assert(seq![stray, odd, even] =~= seq![stray] + seq![odd, even]);
    lemma_run_concat(empty_slots(), seq![stray], seq![odd, even]);
    assert(seq![stray].drop_last() =~= Seq::<Packet>::empty());
    reveal_with_fuel(run, 2);
    lemma_pair_gives_one_reading(odd, even);
    assert(Seq::<Reading>::empty() + seq![merge(odd, even)] =~= seq![merge(odd, even)]);
}

/// The index, within a batch fed to free slots, of the odd packet that waits
/// in the odd slot once the batch is through; -1 where the slot is free.
pub open spec fn held_position(packets: Seq<Packet>) -> int
    decreases packets.len(),
{
    if packets.len() == 0 {
        -1
    } else {
        let held = held_position(packets.drop_last());
        if held >= 0 {
            if packets.last().is_odd() {
                held
            } else {
                -1
            }
        } else if packets.last().is_odd() {
            packets.len() - 1
        } else {
            -1
        }
    }
}

/// For a batch fed to free slots, the indices of the two packets behind each
/// reading: the odd one, then the even one.
pub open spec fn pair_positions(packets: Seq<Packet>) -> Seq<(int, int)>
    decreases packets.len(),
{
    if packets.len() == 0 {
        Seq::empty()
    } else {
        let earlier = pair_positions(packets.drop_last());
        let held = held_position(packets.drop_last());
        if held >= 0 && !packets.last().is_odd() {
            earlier.push((held, packets.len() - 1))
        } else {
            earlier
        }
    }
}

/// Readings keep the order of arrival. For any batch fed to free slots,
/// each reading is made of an odd packet of the batch and of an even packet
/// behind it, and the packets of a later reading all lie behind the packets
/// of an earlier one.
pub proof fn lemma_readings_keep_arrival_order(packets: Seq<Packet>)
    ensures
        run(empty_slots(), packets).0.well_formed(),
        run(empty_slots(), packets).0.slot_odd == if held_position(packets) >= 0 {
            Some(packets[held_position(packets)])
        } else {
            None::<Packet>
        },
        -1 <= held_position(packets) < packets.len(),
        held_position(packets) >= 0 ==> packets[held_position(packets)].is_odd(),
        run(empty_slots(), packets).1.len() == pair_positions(packets).len(),
        forall|k: int|
            0 <= k < pair_positions(packets).len() ==> {
                let (odd_at, even_at) = #[trigger] pair_positions(packets)[k];
                &&& 0 <= odd_at < even_at < packets.len()
                &&& even_at < held_position(packets) || held_position(packets) < 0
                &&& packets[odd_at].is_odd()
                &&& !packets[even_at].is_odd()
                &&& run(empty_slots(), packets).1[k] == merge(packets[odd_at], packets[even_at])
            },
        forall|j: int, k: int|
            0 <= j < k < pair_positions(packets).len() ==> pair_positions(packets)[j].1
                < pair_positions(packets)[k].0,
    decreases packets.len(),
{
    if packets.len() > 0 {
        let earlier = packets.drop_last();
        lemma_readings_keep_arrival_order(earlier);
        let positions = pair_positions(packets);
        let before = pair_positions(earlier);
        let held = held_position(earlier);
        assert forall|k: int| 0 <= k < positions.len() implies {
            let (odd_at, even_at) = #[trigger] positions[k];
            &&& 0 <= odd_at < even_at < packets.len()
            &&& even_at < held_position(packets) || held_position(packets) < 0
            &&& packets[odd_at].is_odd()
            &&& !packets[even_at].is_odd()
            &&& run(empty_slots(), packets).1[k] == merge(packets[odd_at], packets[even_at])
        } by {
            if k < before.len() {
                assert(positions[k] == before[k]);
                let (odd_at, even_at) = before[k];
                assert(earlier[odd_at] == packets[odd_at]);
                assert(earlier[even_at] == packets[even_at]);
            } else {
                assert(earlier[held] == packets[held]);
            }
        }
        assert forall|j: int, k: int| 0 <= j < k < positions.len() implies positions[j].1
            < positions[k].0 by {
            assert(positions[j] == before[j]);
            if k < before.len() {
                assert(positions[k] == before[k]);
            }
        }
        if held_position(packets) >= 0 && held_position(packets) < earlier.len() {
            assert(earlier[held] == packets[held]);
        }
    }
}

/// The batch that holds the given pairs one after another, each pair's
/// first packet before its second.
pub open spec fn in_sequence(pairs: Seq<(Packet, Packet)>) -> Seq<Packet>
    decreases pairs.len(),
{
    if pairs.len() == 0 {
        Seq::empty()
    } else {
        in_sequence(pairs.drop_last()).push(pairs.last().0).push(pairs.last().1)
    }
}

/// A batch of complete pairs, fed to free slots, gives one reading for each
/// pair, in the order of the pairs, and leaves both slots free.
pub proof fn lemma_complete_pairs_in_order(pairs: Seq<(Packet, Packet)>)
    requires
        forall|k: int| 0 <= k < pairs.len() ==> (#[trigger] pairs[k]).0.is_odd() && !pairs[k].1.is_odd(),
    ensures
        run(empty_slots(), in_sequence(pairs)) == (
            empty_slots(),
            Seq::new(pairs.len(), |k: int| merge(pairs[k].0, pairs[k].1)),
        ),
    decreases pairs.len(),
{
    let wanted = Seq::new(pairs.len(), |k: int| merge(pairs[k].0, pairs[k].1));
    if pairs.len() == 0 {
        assert(run(empty_slots(), in_sequence(pairs)).1 =~= wanted);
    } else {
        let earlier = pairs.drop_last();
        let (odd, even) = pairs.last();
        lemma_complete_pairs_in_order(earlier);
        lemma_pair_gives_one_reading(odd, even);
        assert(in_sequence(pairs) =~= in_sequence(earlier) + seq![odd, even]);
        lemma_run_concat(empty_slots(), in_sequence(earlier), seq![odd, even]);
        let before = Seq::new(earlier.len(), |k: int| merge(earlier[k].0, earlier[k].1));
        assert(before + seq![merge(odd, even)] =~= wanted);
    }
}

impl PairingSlots {
    /// The state between steps: the even slot is free, and a packet that
    /// waits in the odd slot has an odd sample number.
    pub open spec fn well_formed(self) -> bool {
        &&& self.slot_even is None
        &&& self.slot_odd matches Some(waiting) ==> waiting.is_odd()
    }

    /// A machine with both slots free.
    pub fn new() -> (slots: Self)
        ensures
            slots == empty_slots(),
            slots.well_formed(),
    {
        PairingSlots { slot_odd: None, slot_even: None }
    }

    /// Takes one packet and returns the reading that it completes, if any.
    pub fn push(&mut self, packet: Packet) -> (emitted: Option<Reading>)
        ensures
            (*final(self), emitted) == step(*old(self), packet),
            old(self).well_formed() ==> final(self).well_formed(),
    {
        let odd = packet.sample_number % 2 == 1;
        if self.slot_odd.is_none() {
            if odd {
                self.slot_odd = Some(packet);
            }
        } else if !odd && self.slot_even.is_none() {
            self.slot_even = Some(packet);
        }
        match (self.slot_odd, self.slot_even) {
            (Some(first), Some(second)) => {
                self.slot_odd = None;
                self.slot_even = None;
                Some(Reading::from_packets([first, second]))
            },
            _ => None,
        }
    }

    /// Takes a batch of packets in arrival order and returns every reading
    /// that they complete, oldest first.
    pub fn feed(&mut self, packets: &[Packet]) -> (readings: Vec<Reading>)
        ensures
            (*final(self), readings@) == run(*old(self), packets@),
            old(self).well_formed() ==> final(self).well_formed(),
    {
        let mut readings: Vec<Reading> = Vec::new();
        let mut i: usize = 0;
        while i < packets.len()
            invariant
                0 <= i <= packets@.len(),
                (*self, readings@) == run(*old(self), packets@.take(i as int)),
                old(self).well_formed() ==> self.well_formed(),
            decreases packets@.len() - i,
        {
            proof {
                assert(packets@.take(i + 1).drop_last() == packets@.take(i as int));
            }
            match self.push(packets[i]) {
                Some(reading) => {
                    readings.push(reading);
                },
                None => {},
            }
            i += 1;
        }
        proof {
            assert(packets@.take(i as int) == packets@);
        }
        readings
    }
}

} // verus!
