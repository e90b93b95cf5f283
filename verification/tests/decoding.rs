use gauge_cluster::config::{DecodeError, GaugeDataType};
use gauge_cluster::scalar::{Scalar, UNIT};

const ALL_TYPES: [GaugeDataType; 7] = [
    GaugeDataType::F16,
    GaugeDataType::U16,
    GaugeDataType::I16,
    GaugeDataType::U8,
    GaugeDataType::I8,
    GaugeDataType::B8,
    GaugeDataType::B16,
];

fn as_float(value: Scalar) -> f64 {
    match value {
        Scalar::Finite(raw) => raw as f64 / UNIT as f64,
        Scalar::PosInf => f64::INFINITY,
        Scalar::NegInf => f64::NEG_INFINITY,
        Scalar::NaN => f64::NAN,
    }
}

#[test]
fn slot_sizes_follow_the_type() {
    assert_eq!(GaugeDataType::F16.slot_size(), 2);
    assert_eq!(GaugeDataType::U16.slot_size(), 2);
    assert_eq!(GaugeDataType::I16.slot_size(), 2);
    assert_eq!(GaugeDataType::U8.slot_size(), 1);
    assert_eq!(GaugeDataType::I8.slot_size(), 1);
    assert_eq!(GaugeDataType::B8.slot_size(), 1);
    assert_eq!(GaugeDataType::B16.slot_size(), 2);
}

#[test]
fn half_precision_one() {
    let decoded = GaugeDataType::F16.value(&[0x3C, 0x00], 0);
    assert_eq!(decoded, Ok(Scalar::Finite(UNIT)));
    assert_eq!(as_float(decoded.unwrap()), 1.0);
}

#[test]
fn unsigned_sixteen_bits_are_big_endian() {
    let decoded = GaugeDataType::U16.value(&[0x00, 0x0A], 0);
    assert_eq!(decoded, Ok(Scalar::Finite(10 * UNIT)));
    assert_eq!(as_float(decoded.unwrap()), 10.0);
    assert_eq!(
        GaugeDataType::U16.value(&[0x0A, 0x00], 0),
        Ok(Scalar::Finite(2560 * UNIT))
    );
}

#[test]
fn signed_eight_bits_minus_one() {
    let decoded = GaugeDataType::I8.value(&[0xFF], 0);
    assert_eq!(decoded, Ok(Scalar::Finite(-UNIT)));
    assert_eq!(as_float(decoded.unwrap()), -1.0);
}

#[test]
fn signed_sixteen_bits() {
    assert_eq!(
        GaugeDataType::I16.value(&[0xFF, 0xFE], 0),
        Ok(Scalar::Finite(-2 * UNIT))
    );
    assert_eq!(
        GaugeDataType::I16.value(&[0x80, 0x00], 0),
        Ok(Scalar::Finite(-32768 * UNIT))
    );
    assert_eq!(
        GaugeDataType::I16.value(&[0x7F, 0xFF], 0),
        Ok(Scalar::Finite(32767 * UNIT))
    );
}

#[test]
fn unsigned_eight_bits() {
    assert_eq!(
        GaugeDataType::U8.value(&[0xFF], 0),
        Ok(Scalar::Finite(255 * UNIT))
    );
    assert_eq!(GaugeDataType::U8.value(&[0x00], 0), Ok(Scalar::Finite(0)));
}

#[test]
fn signed_eight_bits_cover_the_range() {
    for byte in 0..=255u8 {
        let expected = (byte as i8) as i64 * UNIT;
        assert_eq!(
            GaugeDataType::I8.value(&[byte], 0),
            Ok(Scalar::Finite(expected))
        );
    }
}

#[test]
fn sixteen_bit_integers_cover_the_range() {
    for pattern in 0..=u16::MAX {
        let bytes = pattern.to_be_bytes();
        assert_eq!(
            GaugeDataType::U16.value(&bytes, 0),
            Ok(Scalar::Finite(pattern as i64 * UNIT))
        );
        assert_eq!(
            GaugeDataType::I16.value(&bytes, 0),
            Ok(Scalar::Finite(i16::from_be_bytes(bytes) as i64 * UNIT))
        );
    }
}

#[test]
fn bit_patterns_decode_as_unsigned() {
    for pattern in [0u16, 1, 0x00FF, 0x0100, 0x8000, 0xABCD, 0xFFFF] {
        let bytes = pattern.to_be_bytes();
        assert_eq!(
            GaugeDataType::B16.value(&bytes, 0),
            GaugeDataType::U16.value(&bytes, 0)
        );
        assert_eq!(
            GaugeDataType::B8.value(&bytes, 1),
            GaugeDataType::U8.value(&bytes, 1)
        );
    }
    assert_eq!(
        GaugeDataType::B8.value(&[0x80], 0),
        Ok(Scalar::Finite(128 * UNIT))
    );
    assert_eq!(
        GaugeDataType::B16.value(&[0x80, 0x01], 0),
        Ok(Scalar::Finite(32769 * UNIT))
    );
}

#[test]
fn slots_are_read_where_they_start() {
    let payload = [0x11, 0x22, 0x00, 0x32, 0xFF, 0x3C, 0x00, 0x7F];
    assert_eq!(
        GaugeDataType::U16.value(&payload, 2),
        Ok(Scalar::Finite(50 * UNIT))
    );
    assert_eq!(
        GaugeDataType::I8.value(&payload, 4),
        Ok(Scalar::Finite(-UNIT))
    );
    assert_eq!(
        GaugeDataType::F16.value(&payload, 5),
        Ok(Scalar::Finite(UNIT))
    );
    assert_eq!(
        GaugeDataType::U8.value(&payload, 7),
        Ok(Scalar::Finite(127 * UNIT))
    );
    assert_eq!(
        GaugeDataType::U16.value(&payload, 6),
        Ok(Scalar::Finite(0x007F * UNIT))
    );
}

#[test]
fn decoding_fails_exactly_when_the_slot_leaves_the_payload() {
    let payload = [0u8; 8];
    for data_type in ALL_TYPES {
        let width = data_type.slot_size() as usize;
        for length in 0..=payload.len() {
            for start in 0..12usize {
                let decoded = data_type.value(&payload[..length], start);
                if start + width > length {
                    assert_eq!(decoded, Err(DecodeError::OutOfRange));
                } else {
                    assert_eq!(decoded, Ok(Scalar::Finite(0)));
                }
            }
        }
    }
}

#[test]
fn decoding_fails_for_a_start_at_the_end_of_the_address_space() {
    for data_type in ALL_TYPES {
        assert_eq!(
            data_type.value(&[1, 2, 3, 4, 5, 6, 7, 8], usize::MAX),
            Err(DecodeError::OutOfRange)
        );
    }
}

#[test]
fn decoding_an_empty_payload_fails() {
    for data_type in ALL_TYPES {
        assert_eq!(data_type.value(&[], 0), Err(DecodeError::OutOfRange));
    }
}

#[test]
fn half_precision_special_values() {
    assert_eq!(GaugeDataType::F16.value(&[0x7C, 0x00], 0), Ok(Scalar::PosInf));
    assert_eq!(GaugeDataType::F16.value(&[0xFC, 0x00], 0), Ok(Scalar::NegInf));
    assert_eq!(GaugeDataType::F16.value(&[0x7E, 0x00], 0), Ok(Scalar::NaN));
    assert_eq!(GaugeDataType::F16.value(&[0xFC, 0x01], 0), Ok(Scalar::NaN));
    assert_eq!(GaugeDataType::F16.value(&[0x00, 0x00], 0), Ok(Scalar::Finite(0)));
    assert_eq!(GaugeDataType::F16.value(&[0x80, 0x00], 0), Ok(Scalar::Finite(0)));
}

#[test]
fn half_precision_edges() {
    // The smallest subnormal is one grid step, the largest finite number 65504.
    assert_eq!(Scalar::from_half(0x0001), Scalar::Finite(1));
    assert_eq!(Scalar::from_half(0x03FF), Scalar::Finite(1023));
    assert_eq!(Scalar::from_half(0x0400), Scalar::Finite(1024));
    assert_eq!(Scalar::from_half(0x7BFF), Scalar::Finite(65504 * UNIT));
    assert_eq!(Scalar::from_half(0xFBFF), Scalar::Finite(-65504 * UNIT));
    assert_eq!(Scalar::from_half(0x3800), Scalar::Finite(UNIT / 2));
    assert_eq!(Scalar::from_half(0xC000), Scalar::Finite(-2 * UNIT));
}

#[test]
fn half_precision_agrees_with_the_half_crate_on_every_pattern() {
    for bits in 0..=u16::MAX {
        let expected = half::f16::from_be_bytes(bits.to_be_bytes()).to_f32();
        let decoded = GaugeDataType::F16
            .value(&bits.to_be_bytes(), 0)
            .unwrap();
        assert_eq!(decoded, Scalar::from_half(bits));
        if expected.is_nan() {
            assert_eq!(decoded, Scalar::NaN);
        } else if expected == f32::INFINITY {
            assert_eq!(decoded, Scalar::PosInf);
        } else if expected == f32::NEG_INFINITY {
            assert_eq!(decoded, Scalar::NegInf);
        } else {
            assert!(matches!(decoded, Scalar::Finite(_)));
            assert_eq!(as_float(decoded), expected as f64);
        }
    }
}

#[test]
fn whole_numbers() {
    assert_eq!(Scalar::whole(0), Scalar::Finite(0));
    assert_eq!(Scalar::whole(1), Scalar::Finite(UNIT));
    assert_eq!(Scalar::whole(-3), Scalar::Finite(-3 * UNIT));
    assert_eq!(
        Scalar::whole(i32::MAX),
        Scalar::Finite(i32::MAX as i64 * UNIT)
    );
    assert_eq!(
        Scalar::whole(i32::MIN),
        Scalar::Finite(i32::MIN as i64 * UNIT)
    );
}

#[test]
fn negation() {
    assert_eq!(Scalar::Finite(5).negate(), Scalar::Finite(-5));
    assert_eq!(Scalar::Finite(-5).negate(), Scalar::Finite(5));
    assert_eq!(Scalar::Finite(0).negate(), Scalar::Finite(0));
    assert_eq!(Scalar::PosInf.negate(), Scalar::NegInf);
    assert_eq!(Scalar::NegInf.negate(), Scalar::PosInf);
    assert_eq!(Scalar::NaN.negate(), Scalar::NaN);
    assert_eq!(Scalar::Finite(i64::MAX).negate(), Scalar::Finite(-i64::MAX));
    assert_eq!(Scalar::Finite(i64::MIN).negate(), Scalar::PosInf);
}
