use interp::{bits_is_nan, bits_le, order_key};

#[test]
fn zeros_share_one_position() {
    assert_eq!(order_key(0.0f32.to_bits()), 0);
    assert_eq!(order_key((-0.0f32).to_bits()), 0);
    assert!(bits_le((-0.0f32).to_bits(), 0.0f32.to_bits()));
    assert!(bits_le(0.0f32.to_bits(), (-0.0f32).to_bits()));
}

#[test]
fn keys_follow_the_number_line() {
    assert_eq!(order_key(1.0f32.to_bits()), 0x3f80_0000);
    assert_eq!(order_key((-1.0f32).to_bits()), -0x3f80_0000);
    let values = [f32::NEG_INFINITY, -2.5, -1.0, -0.5, 0.0, 1e-30, 0.5, 1.0, 3.0, f32::MAX, f32::INFINITY];
    for w in values.windows(2) {
        assert!(order_key(w[0].to_bits()) < order_key(w[1].to_bits()));
        assert!(bits_le(w[0].to_bits(), w[1].to_bits()));
        assert!(!bits_le(w[1].to_bits(), w[0].to_bits()));
    }
}

#[test]
fn nan_compares_false() {
    let nan = f32::NAN.to_bits();
    assert!(bits_is_nan(nan));
    assert!(bits_is_nan((-f32::NAN).to_bits()));
    assert!(!bits_is_nan(f32::INFINITY.to_bits()));
    assert!(!bits_is_nan(f32::NEG_INFINITY.to_bits()));
    assert!(!bits_le(nan, nan));
    assert!(!bits_le(nan, 1.0f32.to_bits()));
    assert!(!bits_le(1.0f32.to_bits(), nan));
}
