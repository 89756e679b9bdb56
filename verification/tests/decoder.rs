use openbci::decoder::Decoder;
use openbci::packet::Packet;
use openbci::reading::Reading;

fn frame(sample_number: u8, fill: u8) -> [u8; 32] {
    let mut bytes = [fill; 32];
    bytes[0] = 0xA0;
    bytes[1] = sample_number;
    bytes
}

fn reading(odd: &[u8; 32], even: &[u8; 32]) -> Reading {
    Reading::from_packets([Packet::from_bytes(odd), Packet::from_bytes(even)])
}

#[test]
fn decoder_starts_empty() {
    let decoder = Decoder::new();
    assert_eq!(decoder.buffered_len(), 0);
    assert_eq!(decoder.slots().slot_odd, None);
    assert_eq!(decoder.slots().slot_even, None);
}

#[test]
fn decoder_one_pair_in_one_read() {
    let odd = frame(1, 0x01);
    let even = frame(2, 0x02);
    let mut bytes = odd.to_vec();
    bytes.extend(even);
    let mut decoder = Decoder::new();
    let readings = decoder.feed(&bytes);
    assert_eq!(readings, vec![reading(&odd, &even)]);
    assert_eq!(readings[0].sample_numbers, (1, 2));
    assert_eq!(readings[0].chan_1, 0x010101);
    assert_eq!(readings[0].chan_9, 0x020202);
    assert_eq!(readings[0].acc_x, 0x0202);
    assert_eq!(decoder.buffered_len(), 0);
    assert_eq!(decoder.slots().slot_odd, None);
}

#[test]
fn decoder_empty_read_changes_nothing() {
    let mut decoder = Decoder::new();
    assert!(decoder.feed(&frame(1, 0x01)[..20]).is_empty());
    assert_eq!(decoder.buffered_len(), 20);
    assert!(decoder.feed(&[]).is_empty());
    assert_eq!(decoder.buffered_len(), 20);
}

#[test]
fn decoder_frames_split_over_reads() {
    let odd = frame(3, 0x03);
    let even = frame(4, 0x04);
    let mut stream = vec![0x00, 0x55];
    stream.extend(odd);
    stream.extend(even);
    stream.extend([0xA0, 0x05, 0x05]);
    let mut decoder = Decoder::new();
    let mut readings = Vec::new();
    for chunk in stream.chunks(7) {
        readings.extend(decoder.feed(chunk));
    }
    assert_eq!(readings, vec![reading(&odd, &even)]);
    assert_eq!(decoder.buffered_len(), 3);
    assert_eq!(decoder.slots().slot_odd, None);
}

#[test]
fn decoder_holds_the_odd_packet_between_reads() {
    let odd = frame(9, 0x09);
    let even = frame(10, 0x0A);
    let mut decoder = Decoder::new();
    assert!(decoder.feed(&odd).is_empty());
    assert_eq!(decoder.slots().slot_odd, Some(Packet::from_bytes(&odd)));
    assert_eq!(decoder.buffered_len(), 0);
    assert_eq!(decoder.feed(&even), vec![reading(&odd, &even)]);
    assert_eq!(decoder.slots().slot_odd, None);
}

#[test]
fn decoder_several_pairs_in_one_read_keep_their_order() {
    let frames: Vec<[u8; 32]> = (1u8..=6).map(|n| frame(n, n)).collect();
    let mut bytes = Vec::new();
    for f in frames.iter() {
        bytes.extend(f);
    }
    let mut decoder = Decoder::new();
    let readings = decoder.feed(&bytes);
    assert_eq!(
        readings,
        vec![
            reading(&frames[0], &frames[1]),
            reading(&frames[2], &frames[3]),
            reading(&frames[4], &frames[5]),
        ]
    );
}

#[test]
fn decoder_drops_a_leading_even_frame() {
    let stray = frame(2, 0x02);
    let odd = frame(3, 0x03);
    let even = frame(4, 0x04);
    let mut bytes = stray.to_vec();
    bytes.extend(odd);
    bytes.extend(even);
    let mut decoder = Decoder::new();
    assert_eq!(decoder.feed(&bytes), vec![reading(&odd, &even)]);
}
