use openbci::codec::{i24toi32, u16_from_le};

#[test]
fn test_small_i24toi32() {
    let positive_array: [u8; 3] = [0x07, 0x86, 0x9E];
    let positive_value = 493214;
    let result = i24toi32(&positive_array);
    assert_eq!(positive_value, result);

    let negative_array: [u8; 3] = [0x87, 0x86, 0x9E];
    let negative_value = -493214;
    let result = i24toi32(&negative_array);
    assert_eq!(negative_value, result);
}

#[test]
fn test_large_i24toi32() {
    let positive_array: [u8; 3] = [0x7F, 0xFF, 0xFF];
    let positive_value = 8388607;
    let result = i24toi32(&positive_array);
    assert_eq!(positive_value, result);

    let negative_array: [u8; 3] = [0xFF, 0xFF, 0xFF];
    let negative_value = -8388607;
    let result = i24toi32(&negative_array);
    assert_eq!(negative_value, result);
}

#[test]
fn test_tiny_i24toi32() {
    let positive_array: [u8; 3] = [0x00, 0x00, 0x01];
    let positive_value = 1;
    let result = i24toi32(&positive_array);
    assert_eq!(positive_value, result);

    let negative_array: [u8; 3] = [0x80, 0x00, 0x01];
    let negative_value = -1;
    let result = i24toi32(&negative_array);
    assert_eq!(negative_value, result);
}

#[test]
fn i24_zero_has_two_spellings() {
    assert_eq!(i24toi32(&[0x00, 0x00, 0x00]), 0);
    assert_eq!(i24toi32(&[0x80, 0x00, 0x00]), 0);
}

#[test]
fn i24_sign_flag_is_not_twos_complement() {
    // In two's complement these bytes would spell -2.
    assert_eq!(i24toi32(&[0xFF, 0xFF, 0xFE]), -8388606);
    assert_eq!(i24toi32(&[0x80, 0x01, 0x00]), -256);
    assert_eq!(i24toi32(&[0x01, 0x00, 0x00]), 65536);
}

#[test]
fn i24_every_value_stays_within_23_bits() {
    for b0 in [0x00u8, 0x7F, 0x80, 0xFF] {
        for b1 in [0x00u8, 0xFF] {
            for b2 in [0x00u8, 0xFF] {
                let value = i24toi32(&[b0, b1, b2]);
                assert!(-8388607 <= value && value <= 8388607);
                let low = (((b0 & 0x7F) as i32) << 16) + ((b1 as i32) << 8) + b2 as i32;
                assert_eq!(value, if b0 >= 0x80 { -low } else { low });
            }
        }
    }
}

#[test]
fn u16_is_little_endian() {
    assert_eq!(u16_from_le(0x34, 0x12), 0x1234);
    assert_eq!(u16_from_le(0xFF, 0x00), 255);
    assert_eq!(u16_from_le(0x00, 0xFF), 65280);
    assert_eq!(u16_from_le(0xFF, 0xFF), 65535);
    assert_eq!(u16_from_le(0x00, 0x00), 0);
}
