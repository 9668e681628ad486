use led_panel::led_color::ColorParseError;
use led_panel::LedColor;

#[test]
fn zero_is_black() {
    let c = LedColor::zero();
    assert_eq!((c.red, c.green, c.blue), (0, 0, 0));
    assert_eq!(c.to_packed(), 0);
}

#[test]
fn from_packed_splits_channels() {
    let c = LedColor::from_packed(0x2EC866);
    assert_eq!(c, LedColor { red: 0x2E, green: 0xC8, blue: 0x66 });
    let c = LedColor::from_packed(0x010203);
    assert_eq!((c.red, c.green, c.blue), (1, 2, 3));
}

#[test]
fn to_packed_joins_channels() {
    let c = LedColor { red: 0x2E, green: 0xC8, blue: 0x66 };
    assert_eq!(c.to_packed(), 0x2EC866);
    let c = LedColor { red: 255, green: 255, blue: 255 };
    assert_eq!(c.to_packed(), 0xFFFFFF);
    let c = LedColor { red: 1, green: 0, blue: 0 };
    assert_eq!(c.to_packed(), 65536);
    let c = LedColor { red: 0, green: 1, blue: 0 };
    assert_eq!(c.to_packed(), 256);
}

#[test]
fn from_packed_discards_bits_above_24() {
    let c = LedColor::from_packed(0xAB123456);
    assert_eq!(c, LedColor { red: 0x12, green: 0x34, blue: 0x56 });
    assert_eq!(c.to_packed(), 0x123456);
    assert_eq!(LedColor::from_packed(0xFF000000), LedColor::zero());
}

#[test]
fn packed_round_trip_on_edges_and_samples() {
    for u in [0u32, 1, 0xFF, 0x100, 0xFFFF, 0x10000, 0x7FFFFF, 0x800000, 0xFFFFFE, 0xFFFFFF] {
        assert_eq!(LedColor::from_packed(u).to_packed(), u);
    }
    let mut u: u32 = 0;
    while u < 0x1000000 {
        assert_eq!(LedColor::from_packed(u).to_packed(), u);
        u += 4093;
    }
}

#[test]
fn channels_round_trip_through_packed() {
    for red in [0u8, 1, 127, 128, 255] {
        for green in [0u8, 9, 200, 255] {
            for blue in [0u8, 77, 255] {
                let c = LedColor { red, green, blue };
                assert_eq!(LedColor::from_packed(c.to_packed()), c);
            }
        }
    }
}

#[test]
fn conversions_through_from_and_into() {
    let c: LedColor = LedColor::from(0x2EC866u32);
    assert_eq!(c, LedColor { red: 0x2E, green: 0xC8, blue: 0x66 });
    let c: LedColor = 0x00FF00u32.into();
    assert_eq!(c, LedColor { red: 0, green: 255, blue: 0 });
    let u: u32 = c.into();
    assert_eq!(u, 0x00FF00);
    assert_eq!(u32::from(LedColor { red: 1, green: 2, blue: 3 }), 0x010203);
}

#[test]
fn hex_text_is_upper_case_with_two_digits_per_channel() {
    assert_eq!(LedColor { red: 0x2E, green: 0xC8, blue: 0x66 }.to_hex(), "#2EC866");
    assert_eq!(LedColor::zero().to_hex(), "#000000");
    assert_eq!(LedColor { red: 255, green: 255, blue: 255 }.to_hex(), "#FFFFFF");
    assert_eq!(LedColor { red: 0x0A, green: 0xB0, blue: 0x09 }.to_hex(), "#0AB009");
    assert_eq!(LedColor { red: 0xAB, green: 0xCD, blue: 0xEF }.to_hex(), "#ABCDEF");
    assert_eq!(LedColor { red: 0x12, green: 0x34, blue: 0x56 }.to_hex(), "#123456");
    assert_eq!(LedColor { red: 0x78, green: 0x9D, blue: 0xFE }.to_hex(), "#789DFE");
}

#[test]
fn from_hex_takes_both_forms() {
    let expected = LedColor { red: 0x2E, green: 0xC8, blue: 0x66 };
    assert_eq!(LedColor::from_hex("#2EC866"), Ok(expected));
    assert_eq!(LedColor::from_hex("2EC866"), Ok(expected));
    assert_eq!(LedColor::from_hex("#2ec866"), Ok(expected));
    assert_eq!(LedColor::from_hex("+2EC866"), Ok(expected));
    assert_eq!(LedColor::from_hex("#+2Ec866"), Ok(expected));
}

#[test]
fn from_hex_takes_short_and_long_numbers() {
    assert_eq!(LedColor::from_hex("0"), Ok(LedColor::zero()));
    assert_eq!(LedColor::from_hex("#F"), Ok(LedColor { red: 0, green: 0, blue: 15 }));
    assert_eq!(LedColor::from_hex("ABC"), Ok(LedColor { red: 0, green: 0x0A, blue: 0xBC }));
    assert_eq!(
        LedColor::from_hex("#FF123456"),
        Ok(LedColor { red: 0x12, green: 0x34, blue: 0x56 })
    );
    assert_eq!(
        LedColor::from_hex("FFFFFFFF"),
        Ok(LedColor { red: 255, green: 255, blue: 255 })
    );
    assert_eq!(
        LedColor::from_hex("00000000000000000000000A0B0C"),
        Ok(LedColor { red: 10, green: 11, blue: 12 })
    );
}

#[test]
fn from_hex_reports_empty_text() {
    assert_eq!(LedColor::from_hex(""), Err(ColorParseError::Empty));
    assert_eq!(LedColor::from_hex("#"), Err(ColorParseError::Empty));
}

#[test]
fn from_hex_reports_invalid_digits() {
    assert_eq!(LedColor::from_hex("+"), Err(ColorParseError::InvalidDigit));
    assert_eq!(LedColor::from_hex("#+"), Err(ColorParseError::InvalidDigit));
    assert_eq!(LedColor::from_hex("##FFFFFF"), Err(ColorParseError::InvalidDigit));
    assert_eq!(LedColor::from_hex("#GGGGGG"), Err(ColorParseError::InvalidDigit));
    assert_eq!(LedColor::from_hex("12 34"), Err(ColorParseError::InvalidDigit));
    assert_eq!(LedColor::from_hex("-12"), Err(ColorParseError::InvalidDigit));
    assert_eq!(LedColor::from_hex("++12"), Err(ColorParseError::InvalidDigit));
    assert_eq!(LedColor::from_hex("12_34"), Err(ColorParseError::InvalidDigit));
    assert_eq!(LedColor::from_hex("0x1234"), Err(ColorParseError::InvalidDigit));
    assert_eq!(LedColor::from_hex("FFFFFFFFFFg"), Err(ColorParseError::InvalidDigit));
    assert_eq!(LedColor::from_hex("é"), Err(ColorParseError::InvalidDigit));
    assert_eq!(LedColor::from_hex("/"), Err(ColorParseError::InvalidDigit));
    assert_eq!(LedColor::from_hex(":"), Err(ColorParseError::InvalidDigit));
    assert_eq!(LedColor::from_hex("@"), Err(ColorParseError::InvalidDigit));
    assert_eq!(LedColor::from_hex("G"), Err(ColorParseError::InvalidDigit));
    assert_eq!(LedColor::from_hex("`"), Err(ColorParseError::InvalidDigit));
    assert_eq!(LedColor::from_hex("g"), Err(ColorParseError::InvalidDigit));
}

#[test]
fn from_hex_reports_numbers_above_32_bits() {
    assert_eq!(LedColor::from_hex("100000000"), Err(ColorParseError::TooLarge));
    assert_eq!(LedColor::from_hex("#FFFFFFFFF"), Err(ColorParseError::TooLarge));
    assert_eq!(
        LedColor::from_hex("123456789ABCDEF0123456789ABCDEF"),
        Err(ColorParseError::TooLarge)
    );
}

#[test]
fn hex_text_round_trips_through_from_hex() {
    for u in [0u32, 0x2EC866, 0xFFFFFF, 0x0A0B0C, 0x800000, 0x00FF7F] {
        let c = LedColor::from_packed(u);
        assert_eq!(LedColor::from_hex(&c.to_hex()), Ok(c));
    }
}
