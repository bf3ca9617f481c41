use vstd::prelude::*;

use super::hash::HashType;
use crate::serialization::deserializable_little_endian::DeserializableLittleEndian;
use crate::serialization::error_serialization::ErrorSerialization;
use crate::serialization::serializable_little_endian::SerializableLittleEndian;

verus! {

broadcast use vstd::array::group_array_axioms;

/// The 4-byte packed form of a 256-bit proof-of-work target: one exponent
/// byte and a 3-byte significand; ordering is lexicographic on (exponent,
/// significand), which the packed 32-bit value preserves.
#[derive(Debug, Clone, Copy, PartialEq, Eq)]
pub struct Compact256 {
    pub mantissa: [u8; 3],
    pub exponent: u8,
}

/// The packed 32-bit value of a compact target: exponent first, then the
/// significand bytes, most significant first.
pub open spec fn compact256_as_u32(c: Compact256) -> u32 {
    (c.exponent * 0x100_0000 + c.mantissa@[0] * 0x1_0000 + c.mantissa@[1] * 0x100
        + c.mantissa@[2]) as u32
}

/// The three significand bytes as one number.
pub open spec fn compact256_mantissa_value(c: Compact256) -> nat {
    (c.mantissa@[0] * 0x1_0000 + c.mantissa@[1] * 0x100 + c.mantissa@[2]) as nat
}

/// The 256-bit proof-of-work target a compact form names: the significand
/// shifted left by `exponent - 3` bytes (right when the exponent is under
/// three).
pub open spec fn target_of(c: Compact256) -> nat {
    if c.exponent >= 3 {
        compact256_mantissa_value(c) * crate::serialization::encoding::pow256(
            (c.exponent - 3) as nat,
        )
    } else {
        compact256_mantissa_value(c) / crate::serialization::encoding::pow256(
            (3 - c.exponent) as nat,
        )
    }
}

/// How many zero bytes start `data`.
pub open spec fn leading_zero_bytes(data: Seq<u8>) -> nat
    decreases data.len(),
{
    if data.len() == 0 {
        0
    } else if data[0] != 0 {
        0
    } else {
        1 + leading_zero_bytes(data.drop_first())
    }
}

/// The byte of `data` at `index`, zero past the end.
pub open spec fn byte_or_zero(data: Seq<u8>, index: int) -> u8 {
    if 0 <= index < data.len() {
        data[index]
    } else {
        0
    }
}

/// The compact form of a 256-bit hash: the exponent counts down from 0x1F by
/// one for each leading zero byte, and the significand holds the first three
/// bytes from the first non-zero one.
pub open spec fn compact256_of_hash(data: Seq<u8>) -> Compact256 {
    let zeros = leading_zero_bytes(data);
    if zeros >= 32 {
        Compact256 { mantissa: [0u8, 0u8, 0u8], exponent: 0 }
    } else {
        Compact256 {
            mantissa: spec_mantissa_at(data, zeros as int),
            exponent: (0x1F - zeros) as u8,
        }
    }
}

/// The 3-byte array holding `data` at `position`, `position + 1` and
/// `position + 2`, zero past the end.
pub open spec fn spec_mantissa_at(data: Seq<u8>, position: int) -> [u8; 3] {
    choose|v: [u8; 3]|
        (#[trigger] v@) == seq![
            byte_or_zero(data, position),
            byte_or_zero(data, position + 1),
            byte_or_zero(data, position + 2),
        ]
}

impl Compact256 {
    /// The packed 32-bit value, exponent in the highest byte.
    pub fn to_u32(&self) -> (r: u32)
        ensures
            r == compact256_as_u32(*self),
    {
        (self.exponent as u32) * 0x100_0000 + (self.mantissa[0] as u32) * 0x1_0000 + (
        self.mantissa[1] as u32) * 0x100 + (self.mantissa[2] as u32)
    }

    /// Packs a 256-bit hash into its compact form.
    pub fn from_bytes(value: HashType) -> (r: Compact256)
        ensures
            r == compact256_of_hash(value@),
    {
        let mut position: usize = 0;
        while position < 32 && value[position] == 0
            invariant
                position <= 32,
                forall|j: int| 0 <= j < position ==> value@[j] == 0,
            decreases 32 - position,
        {
            position = position + 1;
        }
        proof {
            lemma_leading_zero_bytes_from(value@, position as int);
        }
        if position == 32 {
            return Compact256 { mantissa: [0u8, 0u8, 0u8], exponent: 0 };
        }
        let first = value[position];
        let second: u8 = if position + 1 < 32 {
            value[position + 1]
        } else {
            0
        };
        let third: u8 = if position + 2 < 32 {
            value[position + 2]
        } else {
            0
        };
        let mantissa: [u8; 3] = [first, second, third];
        proof {
            let expected = spec_mantissa_at(value@, position as int);
            assert(mantissa@ =~= seq![
                byte_or_zero(value@, position as int),
                byte_or_zero(value@, position as int + 1),
                byte_or_zero(value@, position as int + 2),
            ]);
            assert(expected@ == mantissa@);
            assert(expected =~= mantissa);
        }
        Compact256 { mantissa, exponent: 0x1F - (position as u8) }
    }
}

/// A scan that stopped at the first non-zero byte counted exactly the
/// leading zero bytes.
proof fn lemma_leading_zero_bytes_from(data: Seq<u8>, position: int)
    requires
        0 <= position <= data.len(),
        forall|j: int| 0 <= j < position ==> data[j] == 0,
        position < data.len() ==> data[position] != 0,
    ensures
        leading_zero_bytes(data) == if position < data.len() {
            position
        } else {
            data.len() as int
        },
    decreases data.len(),
{
    if data.len() > 0 {
        if position == 0 {
        } else {
            lemma_leading_zero_bytes_from(data.drop_first(), position - 1);
        }
    }
}

impl Compact256 {
    /// Unpacks the 32-bit form: the high byte is the exponent, the rest the
    /// significand.
    #[verifier::rlimit(100)]
    pub fn from_u32(value: u32) -> (r: Compact256)
        ensures
            r == compact256_from_u32(value),
            compact256_as_u32(r) == value,
    {
        let exponent = (value / 0x100_0000) as u8;
        let first = ((value / 0x1_0000) % 0x100) as u8;
        let second = ((value / 0x100) % 0x100) as u8;
        let third = (value % 0x100) as u8;
        let mantissa: [u8; 3] = [first, second, third];
        let unpacked = Compact256 { mantissa, exponent };
        proof {
            assert(compact256_as_u32(unpacked) == value) by {
                lemma_compact256_digits(value);
            }
            assert(exists|c: Compact256| compact256_as_u32(c) == value) by {
                assert(compact256_as_u32(unpacked) == value);
            }
            assert(compact256_as_u32(compact256_from_u32(value)) == value);
            lemma_compact256_as_u32_injective(unpacked, compact256_from_u32(value));
            assert(unpacked == compact256_from_u32(value));
        }
        unpacked
    }
}

impl From<u32> for Compact256 {
    /// The same unpacking, reachable through the standard conversion trait.
    fn from(value: u32) -> (r: Compact256) {
        Compact256::from_u32(value)
    }
}

/// Splitting a 32-bit value into its four base-256 digits and recombining
/// them gives the value back.
proof fn lemma_compact256_digits(value: u32)
    ensures
        ((value / 0x100_0000) as u8) * 0x100_0000 + (((value / 0x1_0000) % 0x100) as u8) * 0x1_0000
            + (((value / 0x100) % 0x100) as u8) * 0x100 + ((value % 0x100) as u8) == value,
{
    assert(((value / 0x100_0000) as u8) * 0x100_0000 + (((value / 0x1_0000) % 0x100) as u8)
        * 0x1_0000 + (((value / 0x100) % 0x100) as u8) * 0x100 + ((value % 0x100) as u8)
        == value) by (bit_vector);
}

/// No two compact targets pack to the same 32-bit value.
pub proof fn lemma_compact256_as_u32_injective(left: Compact256, right: Compact256)
    requires
        compact256_as_u32(left) == compact256_as_u32(right),
    ensures
        left == right,
{
    let l = compact256_as_u32(left);
    let e1 = left.exponent;
    let m10 = left.mantissa@[0];
    let m11 = left.mantissa@[1];
    let m12 = left.mantissa@[2];
    let e2 = right.exponent;
    let m20 = right.mantissa@[0];
    let m21 = right.mantissa@[1];
    let m22 = right.mantissa@[2];
    assert((e1 * 0x100_0000 + m10 * 0x1_0000 + m11 * 0x100 + m12 == e2 * 0x100_0000 + m20
        * 0x1_0000 + m21 * 0x100 + m22) ==> (e1 == e2 && m10 == m20 && m11 == m21 && m12
        == m22)) by (bit_vector);
    assert(left.mantissa =~= right.mantissa);
}

impl vstd::std_specs::convert::FromSpecImpl<u32> for Compact256 {
    open spec fn obeys_from_spec() -> bool {
        false
    }

    open spec fn from_spec(value: u32) -> Compact256 {
        compact256_from_u32(value)
    }
}

/// The compact target whose packed 32-bit value is `value`.
pub open spec fn compact256_from_u32(value: u32) -> Compact256 {
    choose|c: Compact256| compact256_as_u32(c) == value
}

impl SerializableLittleEndian for Compact256 {
    open spec fn le_bytes(&self) -> Seq<u8> {
        crate::serialization::encoding::le_bytes_of(compact256_as_u32(*self) as nat, 4)
    }

    fn le_serialize(&self, stream: &mut Vec<u8>) -> (r: Result<(), ErrorSerialization>) {
        let value = self.to_u32();
        value.le_serialize(stream)
    }
}

impl DeserializableLittleEndian for Compact256 {
    open spec fn le_parse(data: Seq<u8>) -> Option<(Compact256, Seq<u8>)> {
        match <u32 as DeserializableLittleEndian>::le_parse(data) {
            Some((value, rest)) => Some((compact256_from_u32(value), rest)),
            None => None,
        }
    }

    fn le_deserialize(stream: &mut &[u8]) -> (r: Result<Compact256, ErrorSerialization>) {
        match u32::le_deserialize(stream) {
            Ok(value) => {
                let unpacked = Compact256::from_u32(value);
                Ok(unpacked)
            },
            Err(error) => Err(error),
        }
    }
}

} // verus!
