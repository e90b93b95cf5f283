//! The configuration of a cluster, and the decoding of bus message slots.

use crate::scalar::{half_exponent, half_mantissa, lemma_half_magnitude_bound, Scalar};
use crate::single::{is_single, lemma_scaled_is_single};
use vstd::arithmetic::power2::lemma2_to64;
use vstd::prelude::*;

verus! {

/// The whole configuration: the bus to listen on, the slot width, the
/// display, the gauges and, for colour displays, the colours.
#[derive(Clone, Debug, PartialEq, Eq)]
pub struct Config {
    pub interface: String,
    pub slot_size: u8,
    pub width: u32,
    pub height: u32,
    pub gauges: Vec<Gauge>,
    /// `None` on a display of two colours.
    pub colors: Option<Colors>,
}

/// One configured gauge: the message and slot it reads, how it decodes and
/// shows the value, and where it stands on the display.
#[derive(Clone, Debug, PartialEq, Eq)]
pub struct Gauge {
    pub frame_id: u32,
    /// The slot within the message, counted from one.
    pub slot_id: u8,
    pub gauge: GaugeType,
    pub data_type: GaugeDataType,
    pub title: String,
    pub unit: String,
    pub min_value: Option<Scalar>,
    pub max_value: Option<Scalar>,
    pub indicators: Option<Vec<Scalar>>,
    pub digits: u8,
    pub point: StartPoint,
    pub size: AreaSize,
}

/// The kind of a gauge.
#[derive(Clone, Copy, Debug, PartialEq, Eq, Structural)]
pub enum GaugeType {
    Dial,
    TextGauge,
}

/// How the bytes of a slot are read.
#[derive(Clone, Copy, Debug, PartialEq, Eq, Structural)]
pub enum GaugeDataType {
    /// IEEE 754 half precision.
    F16,
    /// Unsigned, 16 bits.
    U16,
    /// Two's complement, 16 bits.
    I16,
    /// Unsigned, 8 bits.
    U8,
    /// Two's complement, 8 bits.
    I8,
    /// A pattern of 8 bits, read as an unsigned number.
    B8,
    /// A pattern of 16 bits, read as an unsigned number.
    B16,
}

/// The two colours of a colour display.
#[derive(Clone, Copy, Debug, PartialEq, Eq, Structural)]
pub struct Colors {
    pub primary: Rgb,
    pub background: Rgb,
}

/// A colour of 8 bits per channel.
#[derive(Clone, Copy, Debug, PartialEq, Eq, Structural)]
pub struct Rgb {
    pub r: u8,
    pub g: u8,
    pub b: u8,
}

/// The top-left corner of a gauge.
#[derive(Clone, Copy, Debug, PartialEq, Eq, Structural)]
pub struct StartPoint {
    pub x: i32,
    pub y: i32,
}

/// The size of a gauge.
#[derive(Clone, Copy, Debug, PartialEq, Eq, Structural)]
pub struct AreaSize {
    pub width: u32,
    pub height: u32,
}

/// Why a slot could not be decoded.
#[derive(Clone, Copy, Debug, PartialEq, Eq, Structural)]
pub enum DecodeError {
    /// The slot reaches beyond the end of the payload.
    OutOfRange,
}

/// Two bytes as one unsigned number, the first byte the more significant.
pub open spec fn big_endian(high: u8, low: u8) -> int {
    high * 256 + low
}

/// The two's-complement reading of a byte.
pub open spec fn signed_byte(unsigned: int) -> int {
    if unsigned >= 128 {
        unsigned - 256
    } else {
        unsigned
    }
}

/// The two's-complement reading of an unsigned number of sixteen bits.
pub open spec fn signed_pair(unsigned: int) -> int {
    if unsigned >= 32768 {
        unsigned - 65536
    } else {
        unsigned
    }
}

impl GaugeDataType {
    /// The number of bytes that a value of this type takes.
    pub open spec fn spec_slot_size(self) -> nat {
        match self {
            GaugeDataType::F16 => 2,
            GaugeDataType::U16 => 2,
            GaugeDataType::I16 => 2,
            GaugeDataType::U8 => 1,
            GaugeDataType::I8 => 1,
            GaugeDataType::B8 => 1,
            GaugeDataType::B16 => 2,
        }
    }

    /// The value of the slot that starts at byte `slot_start` of `data`,
    /// or the error where the slot does not lie within `data`.
    pub open spec fn spec_value(self, data: Seq<u8>, slot_start: int) -> Result<
        Scalar,
        DecodeError,
    > {
        if slot_start + self.spec_slot_size() > data.len() {
            Err(DecodeError::OutOfRange)
        } else {
            Ok(
                match self {
                    GaugeDataType::F16 => Scalar::spec_from_half(
                        big_endian(data[slot_start], data[slot_start + 1]) as u16,
                    ),
                    GaugeDataType::U16 => Scalar::spec_whole(
                        big_endian(data[slot_start], data[slot_start + 1]),
                    ),
                    GaugeDataType::I16 => Scalar::spec_whole(
                        signed_pair(big_endian(data[slot_start], data[slot_start + 1])),
                    ),
                    GaugeDataType::U8 => Scalar::spec_whole(data[slot_start] as int),
                    GaugeDataType::I8 => Scalar::spec_whole(
                        signed_byte(data[slot_start] as int),
                    ),
                    GaugeDataType::B8 => Scalar::spec_whole(data[slot_start] as int),
                    GaugeDataType::B16 => Scalar::spec_whole(
                        big_endian(data[slot_start], data[slot_start + 1]),
                    ),
                },
            )
        }
    }

    /// The number of bytes that a value of this type takes.
    pub fn slot_size(&self) -> (size: u8)
        ensures
            size == self.spec_slot_size(),
    {
        match self {
            GaugeDataType::F16 => 2,
            GaugeDataType::U16 => 2,
            GaugeDataType::I16 => 2,
            GaugeDataType::U8 => 1,
            GaugeDataType::I8 => 1,
            GaugeDataType::B8 => 1,
            GaugeDataType::B16 => 2,
        }
    }

    /// Decodes the slot that starts at byte `slot_start` of `data`.
    ///
    /// Values of two bytes are big-endian. The two bit-pattern types decode
    /// as the unsigned types of their width.
    pub fn value(&self, data: &[u8], slot_start: usize) -> (decoded: Result<Scalar, DecodeError>)
        ensures
            decoded == self.spec_value(data@, slot_start as int),
            decoded is Err <==> slot_start + self.spec_slot_size() > data@.len(),
    {
        let width: usize = self.slot_size() as usize;
        if slot_start > data.len() || data.len() - slot_start < width {
            return Err(DecodeError::OutOfRange);
        }
        let first: u8 = data[slot_start];
        match self {
            GaugeDataType::U8 | GaugeDataType::B8 => Ok(Scalar::whole(first as i32)),
            GaugeDataType::I8 => {
                let signed: i32 = if first >= 128 {
                    first as i32 - 256
                } else {
                    first as i32
                };
                Ok(Scalar::whole(signed))
            },
            _ => {
                let second: u8 = data[slot_start + 1];
                let unsigned: u16 = first as u16 * 256 + second as u16;
                match self {
                    GaugeDataType::F16 => Ok(Scalar::from_half(unsigned)),
                    GaugeDataType::I16 => {
                        let signed: i32 = if unsigned >= 32768 {
                            unsigned as i32 - 65536
                        } else {
                            unsigned as i32
                        };
                        Ok(Scalar::whole(signed))
                    },
                    _ => Ok(Scalar::whole(unsigned as i32)),
                }
            },
        }
    }
}

/// Whatever a slot decodes to is a single-precision number: it can be
/// handed on as one without loss.
pub proof fn lemma_decoded_is_single(data_type: GaugeDataType, data: Seq<u8>, slot_start: int)
    requires
        0 <= slot_start,
    ensures
        data_type.spec_value(data, slot_start) matches Ok(value) ==> is_single(value),
{
    lemma2_to64();
    if data_type.spec_value(data, slot_start) is Ok {
        let first = data[slot_start];
        let pair = big_endian(data[slot_start], data[slot_start + 1]);
        match data_type {
            GaugeDataType::F16 => {
                let bits = pair as u16;
                let exponent = half_exponent(bits);
                if exponent == 0 {
                    lemma_scaled_is_single(half_mantissa(bits) as nat, 0);
                } else if exponent != 31 {
                    lemma_half_magnitude_bound(bits);
                    lemma_scaled_is_single(
                        (1024 + half_mantissa(bits)) as nat,
                        (exponent - 1) as nat,
                    );
                }
            },
            GaugeDataType::U16 | GaugeDataType::B16 => {
                lemma_scaled_is_single(pair as nat, 24);
            },
            GaugeDataType::I16 => {
                let signed = signed_pair(pair);
                lemma_scaled_is_single((if signed < 0 { -signed } else { signed }) as nat, 24);
            },
            GaugeDataType::U8 | GaugeDataType::B8 => {
                lemma_scaled_is_single(first as nat, 24);
            },
            GaugeDataType::I8 => {
                let signed = signed_byte(first as int);
                lemma_scaled_is_single((if signed < 0 { -signed } else { signed }) as nat, 24);
            },
        }
    }
}

/// The two bytes of an unsigned number of sixteen bits, the more
/// significant first.
pub open spec fn pair_bytes(unsigned: int) -> Seq<u8> {
    seq![(unsigned / 256) as u8, (unsigned % 256) as u8]
}

/// The unsigned number whose two's-complement reading in `bits` bits, 8 or
/// 16, is `signed`.
pub open spec fn unsigned_of(signed: int, bits: nat) -> int {
    if signed >= 0 {
        signed
    } else if bits == 8 {
        signed + 256
    } else {
        signed + 65536
    }
}

/// Every whole number that an integer type can hold comes back when its
/// encoding is decoded: one byte for the types of 8 bits, two bytes with
/// the more significant first for those of 16, two's complement for the
/// signed types.
pub proof fn lemma_integers_round_trip(n: int)
    ensures
        0 <= n < 256 ==> {
            &&& GaugeDataType::U8.spec_value(seq![n as u8], 0) == Ok::<Scalar, DecodeError>(
                Scalar::spec_whole(n),
            )
            &&& GaugeDataType::B8.spec_value(seq![n as u8], 0) == Ok::<Scalar, DecodeError>(
                Scalar::spec_whole(n),
            )
        },
        -128 <= n < 128 ==> GaugeDataType::I8.spec_value(seq![unsigned_of(n, 8) as u8], 0) == Ok::<
            Scalar,
            DecodeError,
        >(Scalar::spec_whole(n)),
        0 <= n < 65536 ==> {
            &&& GaugeDataType::U16.spec_value(pair_bytes(n), 0) == Ok::<Scalar, DecodeError>(
                Scalar::spec_whole(n),
            )
            &&& GaugeDataType::B16.spec_value(pair_bytes(n), 0) == Ok::<Scalar, DecodeError>(
                Scalar::spec_whole(n),
            )
        },
        -32768 <= n < 32768 ==> GaugeDataType::I16.spec_value(pair_bytes(unsigned_of(n, 16)), 0)
            == Ok::<Scalar, DecodeError>(Scalar::spec_whole(n)),
{
}

} // verus!
