use vstd::prelude::*;

use super::block_version::BlockVersion;
use super::compact256::{
    byte_or_zero, compact256_as_u32, compact256_mantissa_value, target_of, Compact256,
};
use super::error_block::ErrorBlock;
use super::hash::{hash256d, sha256d_of, HashType};
use super::merkle_tree::{merkle_root_of, transaction_hashes, txids_of};
use super::transaction::Transaction;
use crate::messages::compact_size::CompactSize;
use crate::serialization::deserializable_internal_order::DeserializableInternalOrder;
use crate::serialization::deserializable_little_endian::DeserializableLittleEndian;
use crate::serialization::encoding::le_bytes_of;
use crate::serialization::error_serialization::ErrorSerialization;
use crate::serialization::primitives::bytes_equal;
use crate::serialization::serializable_internal_order::SerializableInternalOrder;
use crate::serialization::serializable_little_endian::SerializableLittleEndian;

verus! {

broadcast use vstd::array::group_array_axioms;

/// A block header: the 80 bytes that identify a block, plus the transaction
/// count that follows them inside headers messages and blocks.
#[derive(Debug, Clone, Copy)]
pub struct BlockHeader {
    pub version: BlockVersion,
    pub previous_block_header_hash: HashType,
    pub merkle_root_hash: HashType,
    pub time: u32,
    pub n_bits: Compact256,
    pub nonce: u32,
    pub transaction_count: CompactSize,
}

/// The mathematical shape of a block header: the fields of the 80 identity
/// bytes. The transaction count that rides along inside headers messages and
/// blocks is no part of it.
#[verifier::ext_equal]
pub ghost struct BlockHeaderView {
    pub version: BlockVersion,
    pub previous_block_header_hash: Seq<u8>,
    pub merkle_root_hash: Seq<u8>,
    pub time: u32,
    pub n_bits: Compact256,
    pub nonce: u32,
}

impl DeepView for BlockHeader {
    type V = BlockHeaderView;

    open spec fn deep_view(&self) -> BlockHeaderView {
        BlockHeaderView {
            version: self.version,
            previous_block_header_hash: self.previous_block_header_hash@,
            merkle_root_hash: self.merkle_root_hash@,
            time: self.time,
            n_bits: self.n_bits,
            nonce: self.nonce,
        }
    }
}

impl PartialEq for BlockHeader {
    fn eq(&self, other: &BlockHeader) -> (r: bool) {
        let r = self.version.value == other.version.value
            && crate::block_structure::hash::hashes_equal(
            &self.previous_block_header_hash,
            &other.previous_block_header_hash,
        ) && crate::block_structure::hash::hashes_equal(
            &self.merkle_root_hash,
            &other.merkle_root_hash,
        ) && self.time == other.time && self.n_bits.exponent == other.n_bits.exponent
            && self.n_bits.mantissa[0] == other.n_bits.mantissa[0] && self.n_bits.mantissa[1]
            == other.n_bits.mantissa[1] && self.n_bits.mantissa[2] == other.n_bits.mantissa[2]
            && self.nonce == other.nonce && self.transaction_count.value
            == other.transaction_count.value;
        proof {
            if r {
                assert(self.previous_block_header_hash =~= other.previous_block_header_hash);
                assert(self.merkle_root_hash =~= other.merkle_root_hash);
                assert(self.n_bits.mantissa =~= other.n_bits.mantissa);
                assert(*self =~= *other);
            } else {
                if *self == *other {
                    assert(false);
                }
            }
        }
        r
    }
}

impl vstd::std_specs::cmp::PartialEqSpecImpl for BlockHeader {
    open spec fn obeys_eq_spec() -> bool {
        true
    }

    open spec fn eq_spec(&self, other: &BlockHeader) -> bool {
        *self == *other
    }
}

impl BlockHeader {
    /// The 80 bytes whose double SHA-256 is the block's identity: every
    /// field but the transaction count.
    pub open spec fn id_bytes(&self) -> Seq<u8> {
        self.version.le_bytes() + self.previous_block_header_hash@ + self.merkle_root_hash@
            + le_bytes_of(self.time as nat, 4) + self.n_bits.le_bytes() + le_bytes_of(
            self.nonce as nat,
            4,
        )
    }

    pub fn new(
        version: BlockVersion,
        previous_block_header_hash: HashType,
        merkle_root_hash: HashType,
        time: u32,
        n_bits: Compact256,
        nonce: u32,
        transaction_count: CompactSize,
    ) -> (r: BlockHeader)
        ensures
            r == (BlockHeader {
                version,
                previous_block_header_hash,
                merkle_root_hash,
                time,
                n_bits,
                nonce,
                transaction_count,
            }),
    {
        BlockHeader {
            version,
            previous_block_header_hash,
            merkle_root_hash,
            time,
            n_bits,
            nonce,
            transaction_count,
        }
    }

    /// The hard-coded first block of the chain.
    pub fn generate_genesis_block_header() -> (r: BlockHeader)
        ensures
            r.version.value == 1,
            r.previous_block_header_hash@ == Seq::new(32, |i: int| 0u8),
            r.merkle_root_hash@ == seq![
                0x3bu8, 0xa3u8, 0xedu8, 0xfdu8, 0x7au8, 0x7bu8, 0x12u8, 0xb2u8, 0x7au8, 0xc7u8,
                0x2cu8, 0x3eu8, 0x67u8, 0x76u8, 0x8fu8, 0x61u8, 0x7fu8, 0xc8u8, 0x1bu8, 0xc3u8,
                0x88u8, 0x8au8, 0x51u8, 0x32u8, 0x3au8, 0x9fu8, 0xb8u8, 0xaau8, 0x4bu8, 0x1eu8,
                0x5eu8, 0x4au8,
            ],
            r.time == 1231013705,
            compact256_as_u32(r.n_bits) == 0x1d00ffff,
            r.nonce == 2083236893,
            r.transaction_count.value == 0,
    {
        let previous: HashType = [0u8; 32];
        let merkle: HashType = [
            0x3b, 0xa3, 0xed, 0xfd, 0x7a, 0x7b, 0x12, 0xb2, 0x7a, 0xc7, 0x2c, 0x3e, 0x67, 0x76,
            0x8f, 0x61, 0x7f, 0xc8, 0x1b, 0xc3, 0x88, 0x8a, 0x51, 0x32, 0x3a, 0x9f, 0xb8, 0xaa,
            0x4b, 0x1e, 0x5e, 0x4a,
        ];
        proof {
            assert(previous@ =~= Seq::new(32, |i: int| 0u8));
            assert(merkle@ =~= seq![
                0x3bu8, 0xa3u8, 0xedu8, 0xfdu8, 0x7au8, 0x7bu8, 0x12u8, 0xb2u8, 0x7au8, 0xc7u8,
                0x2cu8, 0x3eu8, 0x67u8, 0x76u8, 0x8fu8, 0x61u8, 0x7fu8, 0xc8u8, 0x1bu8, 0xc3u8,
                0x88u8, 0x8au8, 0x51u8, 0x32u8, 0x3au8, 0x9fu8, 0xb8u8, 0xaau8, 0x4bu8, 0x1eu8,
                0x5eu8, 0x4au8,
            ]);
        }
        BlockHeader::new(
            BlockVersion::version(1),
            previous,
            merkle,
            1231013705,
            Compact256::from_u32(0x1d00ffff),
            2083236893,
            CompactSize::new(0),
        )
    }

    /// The block's identity: the double SHA-256 of its 80 header bytes.
    pub fn get_hash256d(&self) -> (r: Result<HashType, ErrorBlock>)
        ensures
            r is Ok,
            r matches Ok(h) ==> h@ == sha256d_of(self.id_bytes()),
    {
        let mut buffer: Vec<u8> = Vec::new();
        let _ = self.version.le_serialize(&mut buffer);
        let _ = self.previous_block_header_hash.io_serialize(&mut buffer);
        let _ = self.merkle_root_hash.io_serialize(&mut buffer);
        let _ = self.time.le_serialize(&mut buffer);
        let _ = self.n_bits.le_serialize(&mut buffer);
        let _ = self.nonce.le_serialize(&mut buffer);
        proof {
            assert(buffer@ =~= self.id_bytes());
        }
        match hash256d(buffer.as_slice()) {
            Ok(hash) => Ok(hash),
            Err(_) => Err(ErrorBlock::CouldNotHash),
        }
    }

    /// Whether the header's own double-SHA256 identity, read as a 256-bit
    /// number with its last byte most significant (the wire's order for
    /// hashes), is at or under the target its `n_bits` names.
    pub fn proof_of_work(&self) -> (r: bool)
        ensures
            r == header_passes_proof_of_work(*self),
    {
        let hash = match self.get_hash256d() {
            Ok(hash) => hash,
            Err(_) => {
                return false;
            },
        };
        hash_meets_target(&hash, &self.n_bits)
    }

    /// Whether the merkle root over the given transactions is this header's
    /// merkle root; false when there are none.
    pub fn proof_of_inclusion(&self, transactions: &Vec<Transaction>) -> (r: bool)
        ensures
            r == (transactions@.len() >= 1 && merkle_root_of(txids_of(transactions@))
                == self.merkle_root_hash@),
    {
        let hashes = match transaction_hashes(transactions) {
            Ok(hashes) => hashes,
            Err(_) => {
                return false;
            },
        };
        if hashes.len() == 0 {
            return false;
        }
        proof {
            assert(hashes.deep_view() =~~= txids_of(transactions@));
        }
        let root = match super::merkle_tree::merkle_root_from_hashes(hashes) {
            Ok(root) => root,
            Err(_) => {
                return false;
            },
        };
        bytes_equal(root.as_slice(), self.merkle_root_hash.as_slice())
    }
}

impl SerializableInternalOrder for BlockHeader {
    open spec fn io_bytes(&self) -> Seq<u8> {
        self.id_bytes()
    }

    open spec fn io_wf(&self) -> bool {
        true
    }

    fn io_serialize(&self, stream: &mut Vec<u8>) -> (r: Result<(), ErrorSerialization>) {
        self.version.le_serialize(stream)?;
        self.previous_block_header_hash.io_serialize(stream)?;
        self.merkle_root_hash.io_serialize(stream)?;
        self.time.le_serialize(stream)?;
        self.n_bits.le_serialize(stream)?;
        self.nonce.le_serialize(stream)?;
        proof {
            assert(stream@ =~= old(stream)@ + self.io_bytes());
        }
        Ok(())
    }
}

impl DeserializableInternalOrder for BlockHeader {
    open spec fn io_parse(data: Seq<u8>) -> Option<(BlockHeaderView, Seq<u8>)> {
        match BlockVersion::le_parse(data) {
            Some((version, rest)) => {
                if rest.len() >= 64 {
                    let previous = rest.take(32);
                    let merkle = rest.skip(32).take(32);
                    match <u32 as DeserializableLittleEndian>::le_parse(rest.skip(64)) {
                        Some((time, rest)) => match Compact256::le_parse(rest) {
                            Some((n_bits, rest)) => match <
                                u32 as DeserializableLittleEndian
                            >::le_parse(rest) {
                                Some((nonce, tail)) => Some(
                                    (
                                        BlockHeaderView {
                                            version,
                                            previous_block_header_hash: previous,
                                            merkle_root_hash: merkle,
                                            time,
                                            n_bits,
                                            nonce,
                                        },
                                        tail,
                                    ),
                                ),
                                None => None,
                            },
                            None => None,
                        },
                        None => None,
                    }
                } else {
                    None
                }
            },
            None => None,
        }
    }

    fn io_deserialize(stream: &mut &[u8]) -> (r: Result<BlockHeader, ErrorSerialization>) {
        let saved: &[u8] = *stream;
        let version = BlockVersion::le_deserialize(stream)?;
        let result = BlockHeader::io_deserialize_body(stream, version);
        match result {
            Ok(header) => {
                proof {
                    let parsed = BlockHeader::io_parse(saved@).unwrap().0;
                    assert(header.deep_view() =~= parsed);
                }
                Ok(header)
            },
            Err(error) => {
                *stream = saved;
                Err(error)
            },
        }
    }

    proof fn lemma_io_round_trip(value: BlockHeader, rest: Seq<u8>) {
        crate::serialization::encoding::lemma_le_bytes_of_len(value.time as nat, 4);
        crate::serialization::encoding::lemma_le_bytes_of_len(value.nonce as nat, 4);
        crate::serialization::encoding::lemma_le_bytes_of_len(
            compact256_as_u32(value.n_bits) as nat,
            4,
        );
        let nonce_bytes = le_bytes_of(value.nonce as nat, 4) + rest;
        let nbits_bytes = value.n_bits.le_bytes() + nonce_bytes;
        let time_bytes = le_bytes_of(value.time as nat, 4) + nbits_bytes;
        let hashes_bytes = value.previous_block_header_hash@ + (value.merkle_root_hash@
            + time_bytes);
        assert(value.io_bytes() + rest =~= value.version.le_bytes() + hashes_bytes);
        crate::serialization::deserializable_little_endian::lemma_i32_le_round_trip(
            value.version.value,
            hashes_bytes,
        );
        assert(hashes_bytes.take(32) =~= value.previous_block_header_hash@);
        assert(hashes_bytes.skip(32).take(32) =~= value.merkle_root_hash@);
        assert(hashes_bytes.skip(64) =~= time_bytes);
        crate::serialization::deserializable_little_endian::lemma_u32_le_round_trip(
            value.time,
            nbits_bytes,
        );
        lemma_compact256_le_round_trip(value.n_bits, nonce_bytes);
        crate::serialization::deserializable_little_endian::lemma_u32_le_round_trip(
            value.nonce,
            rest,
        );
        assert(BlockHeader::io_parse(value.io_bytes() + rest) == Some(
            (value.deep_view(), rest),
        )) by {
            assert(BlockHeaderView {
                version: value.version,
                previous_block_header_hash: hashes_bytes.take(32),
                merkle_root_hash: hashes_bytes.skip(32).take(32),
                time: value.time,
                n_bits: value.n_bits,
                nonce: value.nonce,
            } =~= value.deep_view());
        }
    }
}

/// A header's identity bytes are exactly 80, and they are its whole wire
/// form.
pub proof fn lemma_header_bytes_len(header: BlockHeader)
    ensures
        header.id_bytes().len() == 80,
        header.io_bytes().len() == 80,
{
    crate::serialization::encoding::lemma_le_bytes_of_len(
        crate::serialization::encoding::i32_as_unsigned(header.version.value),
        4,
    );
    crate::serialization::encoding::lemma_le_bytes_of_len(header.time as nat, 4);
    crate::serialization::encoding::lemma_le_bytes_of_len(
        compact256_as_u32(header.n_bits) as nat,
        4,
    );
    crate::serialization::encoding::lemma_le_bytes_of_len(header.nonce as nat, 4);
}

/// Whether two headers agree on every identity field; the transaction
/// count that rides beside them inside messages is left out.
pub fn headers_agree(left: &BlockHeader, right: &BlockHeader) -> (r: bool)
    ensures
        r == (left.deep_view() == right.deep_view()),
{
    let r = left.version.value == right.version.value
        && crate::block_structure::hash::hashes_equal(
        &left.previous_block_header_hash,
        &right.previous_block_header_hash,
    ) && crate::block_structure::hash::hashes_equal(
        &left.merkle_root_hash,
        &right.merkle_root_hash,
    ) && left.time == right.time && left.n_bits.exponent == right.n_bits.exponent
        && left.n_bits.mantissa[0] == right.n_bits.mantissa[0] && left.n_bits.mantissa[1]
        == right.n_bits.mantissa[1] && left.n_bits.mantissa[2] == right.n_bits.mantissa[2]
        && left.nonce == right.nonce;
    proof {
        if r {
            assert(left.n_bits.mantissa =~= right.n_bits.mantissa);
            assert(left.deep_view() =~= right.deep_view());
        } else {
            if left.deep_view() == right.deep_view() {
                assert(false);
            }
        }
    }
    r
}

/// Whether a header's identity is at or under the 256-bit target its
/// `n_bits` names.
pub open spec fn header_passes_proof_of_work(header: BlockHeader) -> bool {
    crate::serialization::encoding::le_value_of(sha256d_of(header.id_bytes())) <= target_of(
        header.n_bits,
    )
}

/// The 80 identity bytes, spelled from a header's view.
pub open spec fn header_view_id_bytes(header: BlockHeaderView) -> Seq<u8> {
    header.version.le_bytes() + header.previous_block_header_hash + header.merkle_root_hash
        + le_bytes_of(header.time as nat, 4) + header.n_bits.le_bytes() + le_bytes_of(
        header.nonce as nat,
        4,
    )
}

/// Whether a header's view passes proof of work; the same check as on the
/// header itself.
pub open spec fn header_view_passes_proof_of_work(header: BlockHeaderView) -> bool {
    crate::serialization::encoding::le_value_of(sha256d_of(header_view_id_bytes(header)))
        <= target_of(header.n_bits)
}

/// The identity bytes depend on the view alone.
pub proof fn lemma_id_bytes_from_view(header: BlockHeader)
    ensures
        header.id_bytes() == header_view_id_bytes(header.deep_view()),
        header_passes_proof_of_work(header) == header_view_passes_proof_of_work(
            header.deep_view(),
        ),
{
    assert(header.id_bytes() =~= header_view_id_bytes(header.deep_view()));
}

/// Whether a 256-bit hash, read with its last byte most significant, is at
/// or under the target the compact form names.
pub fn hash_meets_target(hash: &HashType, n_bits: &Compact256) -> (r: bool)
    ensures
        r == (crate::serialization::encoding::le_value_of(hash@) <= target_of(*n_bits)),
{
    let mantissa_value: u32 = (n_bits.mantissa[0] as u32) * 0x1_0000 + (n_bits.mantissa[1] as u32)
        * 0x100 + (n_bits.mantissa[2] as u32);
    let exponent = n_bits.exponent;
    proof {
        assert(mantissa_value == compact256_mantissa_value(*n_bits));
        crate::serialization::encoding::lemma_le_value_of_bound(hash@);
        crate::serialization::encoding::lemma_pow256_values();
    }
    if exponent >= 35 {
        if mantissa_value == 0 {
            proof {
                vstd::arithmetic::mul::lemma_mul_by_zero_is_zero(
                    crate::serialization::encoding::pow256((exponent - 3) as nat) as int,
                );
                crate::serialization::encoding::lemma_le_value_of_zero(hash@);
            }
            return bytes_zero_between(hash, 0, 32);
        }
        proof {
            let shift = crate::serialization::encoding::pow256((exponent - 3) as nat);
            crate::serialization::encoding::lemma_pow256_mono(32, (exponent - 3) as nat);
            assert(target_of(*n_bits) >= 1 * shift) by {
                vstd::arithmetic::mul::lemma_mul_inequality(
                    1,
                    compact256_mantissa_value(*n_bits) as int,
                    shift as int,
                );
            }
            assert(1 * shift == shift) by {
                vstd::arithmetic::mul::lemma_mul_basics_4(shift as int);
            }
        }
        return true;
    }
    let scaled_mantissa: u32;
    let shift_bytes: usize;
    if exponent >= 3 {
        scaled_mantissa = mantissa_value;
        shift_bytes = (exponent - 3) as usize;
    } else if exponent == 2 {
        scaled_mantissa = mantissa_value / 0x100;
        shift_bytes = 0;
    } else if exponent == 1 {
        scaled_mantissa = mantissa_value / 0x1_0000;
        shift_bytes = 0;
    } else {
        scaled_mantissa = mantissa_value / 0x100_0000;
        shift_bytes = 0;
    }
    proof {
        assert(target_of(*n_bits) == scaled_mantissa * crate::serialization::encoding::pow256(
            shift_bytes as nat,
        )) by {
            crate::serialization::encoding::lemma_pow256_values();
            if exponent < 3 {
                assert(crate::serialization::encoding::pow256(0) == 1);
                vstd::arithmetic::mul::lemma_mul_basics_3(scaled_mantissa as int);
            }
        }
    }
    if scaled_mantissa == 0 {
        proof {
            vstd::arithmetic::mul::lemma_mul_by_zero_is_zero(
                crate::serialization::encoding::pow256(shift_bytes as nat) as int,
            );
            crate::serialization::encoding::lemma_le_value_of_zero(hash@);
        }
        return bytes_zero_between(hash, 0, 32);
    }
    let mid_end: usize = if shift_bytes + 3 <= 32 {
        shift_bytes + 3
    } else {
        32
    };
    let upper_zero = bytes_zero_between(hash, mid_end, 32);
    let low_zero = bytes_zero_between(hash, 0, shift_bytes);
    let byte_low = hash[shift_bytes];
    let byte_mid: u8 = if shift_bytes + 1 < 32 {
        hash[shift_bytes + 1]
    } else {
        0
    };
    let byte_high: u8 = if shift_bytes + 2 < 32 {
        hash[shift_bytes + 2]
    } else {
        0
    };
    let middle: u32 = (byte_low as u32) + (byte_mid as u32) * 0x100 + (byte_high as u32)
        * 0x1_0000;
    let pass = upper_zero && (middle < scaled_mantissa || (middle == scaled_mantissa && low_zero));
    proof {
        lemma_hash_target_compare(
            hash@,
            shift_bytes as int,
            mid_end as int,
            middle as nat,
            scaled_mantissa as nat,
            upper_zero,
            low_zero,
        );
    }
    pass
}

/// Whether every hash byte in `start <= i < end` is zero.
fn bytes_zero_between(hash: &HashType, start: usize, end: usize) -> (r: bool)
    requires
        start <= end <= 32,
    ensures
        r == forall|i: int| start <= i < end ==> hash@[i] == 0,
{
    let mut i: usize = start;
    while i < end
        invariant
            start <= i <= end <= 32,
            forall|j: int| start <= j < i ==> hash@[j] == 0,
        decreases end - i,
    {
        if hash[i] != 0 {
            return false;
        }
        i = i + 1;
    }
    true
}

/// The byte-range checks of `hash_meets_target` decide the 256-bit
/// comparison against the shifted significand.
proof fn lemma_hash_target_compare(
    hash: Seq<u8>,
    shift: int,
    mid_end: int,
    middle: nat,
    scaled: nat,
    upper_zero: bool,
    low_zero: bool,
)
    requires
        hash.len() == 32,
        0 <= shift <= 31,
        mid_end == if shift + 3 <= 32 {
            shift + 3
        } else {
            32int
        },
        1 <= scaled < 0x100_0000,
        middle == byte_or_zero(hash, shift) + byte_or_zero(hash, shift + 1) * 0x100 + byte_or_zero(
            hash,
            shift + 2,
        ) * 0x1_0000,
        upper_zero == forall|i: int| mid_end <= i < 32 ==> hash[i] == 0,
        low_zero == forall|i: int| 0 <= i < shift ==> hash[i] == 0,
    ensures
        (crate::serialization::encoding::le_value_of(hash) <= scaled
            * crate::serialization::encoding::pow256(shift as nat)) == (upper_zero && (middle
            < scaled || (middle == scaled && low_zero))),
{
    let value = crate::serialization::encoding::le_value_of(hash);
    let p = crate::serialization::encoding::pow256(shift as nat);
    let lo = crate::serialization::encoding::le_value_of(hash.take(shift));
    let hi = crate::serialization::encoding::le_value_of(hash.skip(shift));
    crate::serialization::encoding::lemma_pow256_pos(shift as nat);
    crate::serialization::encoding::lemma_pow256_values();
    crate::serialization::encoding::lemma_le_value_of_split(hash, shift);
    crate::serialization::encoding::lemma_le_value_of_bound(hash.take(shift));
    assert(hash.take(shift).len() == shift);
    let tail = hash.skip(shift);
    let cut = mid_end - shift;
    crate::serialization::encoding::lemma_le_value_of_split(tail, cut);
    let mid_part = crate::serialization::encoding::le_value_of(tail.take(cut));
    let up = crate::serialization::encoding::le_value_of(tail.skip(cut));
    assert(mid_part == middle) by {
        lemma_le_value_up_to_three(tail.take(cut));
        assert(byte_or_zero(tail.take(cut), 0) == byte_or_zero(hash, shift));
        assert(byte_or_zero(tail.take(cut), 1) == byte_or_zero(hash, shift + 1));
        assert(byte_or_zero(tail.take(cut), 2) == byte_or_zero(hash, shift + 2));
    }
    crate::serialization::encoding::lemma_le_value_of_zero(tail.skip(cut));
    assert(forall|i: int|
        0 <= i < tail.skip(cut).len() ==> #[trigger] tail.skip(cut)[i] == hash[mid_end + i]);
    assert((up == 0) == upper_zero) by {
        if upper_zero {
            assert(forall|i: int| 0 <= i < tail.skip(cut).len() ==> tail.skip(cut)[i] == 0);
        }
        if up == 0 {
            assert forall|i: int| mid_end <= i < 32 implies hash[i] == 0 by {
                assert(tail.skip(cut)[i - mid_end] == hash[i]);
            }
        }
    }
    crate::serialization::encoding::lemma_le_value_of_zero(hash.take(shift));
    assert(forall|i: int| 0 <= i < shift ==> #[trigger] hash.take(shift)[i] == hash[i]);
    assert((lo == 0) == low_zero) by {
        if low_zero {
            assert(forall|i: int| 0 <= i < shift ==> hash.take(shift)[i] == 0);
        }
        if lo == 0 {
            assert forall|i: int| 0 <= i < shift implies hash[i] == 0 by {
                assert(hash.take(shift)[i] == 0);
            }
        }
    }
    // the cut is three bytes unless the hash ends sooner, and then nothing
    // is above it
    if cut < 3 {
        assert(tail.skip(cut).len() == 0);
        assert(up == 0);
    }
    assert(hi == middle + 0x100_0000 * up) by {
        if cut == 3 {
            assert(crate::serialization::encoding::pow256(3) == 0x100_0000);
        } else {
            assert(up == 0);
            assert(crate::serialization::encoding::pow256(cut as nat) * 0 == 0) by {
                vstd::arithmetic::mul::lemma_mul_by_zero_is_zero(
                    crate::serialization::encoding::pow256(cut as nat) as int,
                );
            }
        }
    }
    if up > 0 {
        assert(hi >= 0x100_0000) by {
            assert(0x100_0000 * up >= 0x100_0000 * 1) by {
                vstd::arithmetic::mul::lemma_mul_inequality(1, up as int, 0x100_0000);
            }
        }
        assert(hi > scaled);
        lemma_scaled_compare(lo, hi, scaled, p);
        assert(!(value <= scaled * p));
    } else {
        assert(hi == middle);
        lemma_scaled_compare(lo, hi, scaled, p);
    }
}

/// A number below three bytes long reads as its bytes, missing bytes zero.
proof fn lemma_le_value_up_to_three(s: Seq<u8>)
    requires
        s.len() <= 3,
    ensures
        crate::serialization::encoding::le_value_of(s) == byte_or_zero(s, 0) + byte_or_zero(s, 1)
            * 0x100 + byte_or_zero(s, 2) * 0x1_0000,
    decreases s.len(),
{
    if s.len() > 0 {
        lemma_le_value_up_to_three(s.drop_first());
        assert(byte_or_zero(s.drop_first(), 0) == byte_or_zero(s, 1));
        assert(byte_or_zero(s.drop_first(), 1) == byte_or_zero(s, 2));
        assert(byte_or_zero(s.drop_first(), 2) == 0);
    }
}

/// Splitting a 256-bit number at the target's shift decides the comparison
/// byte-wise: the high part against the significand, the low part against
/// zero.
proof fn lemma_scaled_compare(lo: nat, hi: nat, scaled: nat, p: nat)
    requires
        p >= 1,
        lo < p,
        scaled >= 1,
    ensures
        ((lo + p * hi <= p * scaled) <==> (hi < scaled || (hi == scaled && lo == 0))),
{
    assert((lo + p * hi <= p * scaled) <==> (hi < scaled || (hi == scaled && lo == 0)))
        by (nonlinear_arith)
        requires
            p >= 1,
            lo < p,
            scaled >= 1,
    ;
}

/// A compact target reads back from its four little-endian bytes as itself.
pub proof fn lemma_compact256_le_round_trip(value: Compact256, rest: Seq<u8>)
    ensures
        Compact256::le_parse(value.le_bytes() + rest) == Some((value, rest)),
{
    crate::serialization::deserializable_little_endian::lemma_u32_le_round_trip(
        compact256_as_u32(value),
        rest,
    );
    let unpacked = super::compact256::compact256_from_u32(compact256_as_u32(value));
    assert(unpacked == value) by {
        assert(compact256_as_u32(unpacked) == compact256_as_u32(value));
        super::compact256::lemma_compact256_as_u32_injective(unpacked, value);
    }
}

impl BlockHeader {
    /// Reads the fields of a header whose version is already read.
    fn io_deserialize_body(stream: &mut &[u8], version: BlockVersion) -> (r: Result<
        BlockHeader,
        ErrorSerialization,
    >)
        ensures
            (r matches Ok(v) ==> {
                &&& v.version == version
                &&& old(stream)@.len() >= 64
                &&& v.previous_block_header_hash@ == old(stream)@.take(32)
                &&& v.merkle_root_hash@ == old(stream)@.skip(32).take(32)
                &&& (match <u32 as DeserializableLittleEndian>::le_parse(old(stream)@.skip(64)) {
                    Some((time, rest)) => v.time == time && (match Compact256::le_parse(rest) {
                        Some((n_bits, rest)) => v.n_bits == n_bits && (match <
                            u32 as DeserializableLittleEndian
                        >::le_parse(rest) {
                            Some((nonce, tail)) => v.nonce == nonce && final(stream)@ == tail,
                            None => false,
                        }),
                        None => false,
                    }),
                    None => false,
                })
            }),
            (r is Err ==> (old(stream)@.len() < 64 || (match <
                u32 as DeserializableLittleEndian
            >::le_parse(old(stream)@.skip(64)) {
                Some((time, rest)) => match Compact256::le_parse(rest) {
                    Some((n_bits, rest)) => <u32 as DeserializableLittleEndian>::le_parse(
                        rest,
                    ) is None,
                    None => true,
                },
                None => true,
            }))),
    {
        let saved: &[u8] = *stream;
        let previous = match crate::serialization::deserializable_internal_order::read_array::<
            32,
        >(stream) {
            Some(previous) => previous,
            None => {
                return Err(ErrorSerialization::ErrorWhileReading);
            },
        };
        let merkle = match crate::serialization::deserializable_internal_order::read_array::<
            32,
        >(stream) {
            Some(merkle) => merkle,
            None => {
                *stream = saved;
                return Err(ErrorSerialization::ErrorWhileReading);
            },
        };
        proof {
            assert(merkle@ =~= saved@.skip(32).take(32));
            assert(stream@ =~= saved@.skip(64));
        }
        let time = match u32::le_deserialize(stream) {
            Ok(time) => time,
            Err(error) => {
                *stream = saved;
                return Err(error);
            },
        };
        let n_bits = match Compact256::le_deserialize(stream) {
            Ok(n_bits) => n_bits,
            Err(error) => {
                *stream = saved;
                return Err(error);
            },
        };
        let nonce = match u32::le_deserialize(stream) {
            Ok(nonce) => nonce,
            Err(error) => {
                *stream = saved;
                return Err(error);
            },
        };
        Ok(
            BlockHeader {
                version,
                previous_block_header_hash: previous,
                merkle_root_hash: merkle,
                time,
                n_bits,
                nonce,
                transaction_count: CompactSize { value: 0 },
            },
        )
    }
}

} // verus!
