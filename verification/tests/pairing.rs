use openbci::packet::Packet;
use openbci::pairing::PairingSlots;
use openbci::reading::Reading;

fn half(sample_number: u8, base: i32) -> Packet {
    Packet {
        counter: 0xA0,
        sample_number,
        chan_1: base + 1,
        chan_2: base + 2,
        chan_3: base + 3,
        chan_4: base + 4,
        chan_5: base + 5,
        chan_6: base + 6,
        chan_7: base + 7,
        chan_8: base + 8,
        acc_x: base as u16,
        acc_y: base as u16 + 1,
        acc_z: base as u16 + 2,
    }
}

fn empty() -> PairingSlots {
    PairingSlots { slot_odd: None, slot_even: None }
}

#[test]
fn pairing_starts_with_free_slots() {
    assert_eq!(PairingSlots::new(), empty());
}

#[test]
fn pairing_odd_then_even_gives_one_reading() {
    let odd = half(1, 10);
    let even = half(2, 20);
    let mut slots = PairingSlots::new();
    assert_eq!(slots.push(odd), None);
    assert_eq!(slots, PairingSlots { slot_odd: Some(odd), slot_even: None });
    let reading = slots.push(even).unwrap();
    assert_eq!(reading.sample_numbers, (1, 2));
    assert_eq!(
        [
            reading.chan_1, reading.chan_2, reading.chan_3, reading.chan_4,
            reading.chan_5, reading.chan_6, reading.chan_7, reading.chan_8,
        ],
        [11, 12, 13, 14, 15, 16, 17, 18]
    );
    assert_eq!(
        [
            reading.chan_9, reading.chan_10, reading.chan_11, reading.chan_12,
            reading.chan_13, reading.chan_14, reading.chan_15, reading.chan_16,
        ],
        [21, 22, 23, 24, 25, 26, 27, 28]
    );
    assert_eq!((reading.acc_x, reading.acc_y, reading.acc_z), (20, 21, 22));
    assert_eq!(slots, empty());
}

#[test]
fn pairing_batch_of_odd_and_even_gives_exactly_one_reading() {
    let odd = half(7, 10);
    let even = half(8, 20);
    let mut slots = PairingSlots::new();
    let readings = slots.feed(&[odd, even]);
    assert_eq!(readings, vec![Reading::from_packets([odd, even])]);
    assert_eq!(slots, empty());
}

#[test]
fn pairing_drops_a_leading_even_packet() {
    let stray = half(4, 0);
    let odd = half(5, 10);
    let even = half(6, 20);
    let mut slots = PairingSlots::new();
    assert_eq!(slots.push(stray), None);
    assert_eq!(slots, empty());
    let readings = slots.feed(&[odd, even]);
    assert_eq!(readings, vec![Reading::from_packets([odd, even])]);
    assert_eq!(slots, empty());

    let mut again = PairingSlots::new();
    let readings = again.feed(&[stray, odd, even]);
    assert_eq!(readings, vec![Reading::from_packets([odd, even])]);
    assert_eq!(again, empty());
}

#[test]
fn pairing_keeps_the_first_of_two_odd_packets() {
    let first = half(1, 10);
    let repeat = half(3, 30);
    let even = half(4, 40);
    let mut slots = PairingSlots::new();
    assert_eq!(slots.push(first), None);
    assert_eq!(slots.push(repeat), None);
    assert_eq!(slots, PairingSlots { slot_odd: Some(first), slot_even: None });
    assert_eq!(slots.push(even), Some(Reading::from_packets([first, even])));
    assert_eq!(slots, empty());
}

#[test]
fn pairing_keeps_arrival_order_in_a_batch() {
    let batch = [
        half(1, 10),
        half(2, 20),
        half(3, 30),
        half(4, 40),
        half(5, 50),
        half(6, 60),
    ];
    let mut slots = PairingSlots::new();
    let readings = slots.feed(&batch);
    assert_eq!(
        readings,
        vec![
            Reading::from_packets([batch[0], batch[1]]),
            Reading::from_packets([batch[2], batch[3]]),
            Reading::from_packets([batch[4], batch[5]]),
        ]
    );
    assert_eq!(
        readings.iter().map(|r| r.sample_numbers).collect::<Vec<_>>(),
        vec![(1, 2), (3, 4), (5, 6)]
    );
    assert_eq!(slots, empty());
}

#[test]
fn pairing_batch_with_strays_between_pairs() {
    let batch = [
        half(2, 0),  // dropped: no odd packet waits
        half(1, 10), // held
        half(3, 30), // dropped: the odd slot is taken
        half(4, 40), // pairs with 1
        half(6, 60), // dropped
        half(7, 70), // held
        half(8, 80), // pairs with 7
        half(9, 90), // held at the end
    ];
    let mut slots = PairingSlots::new();
    let readings = slots.feed(&batch);
    assert_eq!(
        readings,
        vec![
            Reading::from_packets([batch[1], batch[3]]),
            Reading::from_packets([batch[5], batch[6]]),
        ]
    );
    assert_eq!(slots, PairingSlots { slot_odd: Some(batch[7]), slot_even: None });
}

#[test]
fn pairing_over_two_batches_equals_one_batch() {
    let batch = [half(1, 10), half(2, 20), half(3, 30), half(4, 40), half(5, 50)];
    let mut whole = PairingSlots::new();
    let expected = whole.feed(&batch);
    for cut in 0..=batch.len() {
        let mut slots = PairingSlots::new();
        let mut readings = slots.feed(&batch[..cut]);
        readings.extend(slots.feed(&batch[cut..]));
        assert_eq!(readings, expected);
        assert_eq!(slots, whole);
    }
}

#[test]
fn pairing_empty_batch_changes_nothing() {
    let odd = half(1, 10);
    let mut slots = PairingSlots::new();
    slots.push(odd);
    let readings = slots.feed(&[]);
    assert!(readings.is_empty());
    assert_eq!(slots, PairingSlots { slot_odd: Some(odd), slot_even: None });
}
