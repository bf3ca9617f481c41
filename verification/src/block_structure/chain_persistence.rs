use vstd::prelude::*;

use super::block::Block;
use super::block_chain::BlockChain;
use super::error_block::ErrorBlock;
use super::node_chain::NodeChain;
use crate::messages::compact_size::CompactSize;
use crate::serialization::deserializable_internal_order::DeserializableInternalOrder;
use crate::serialization::deserializable_little_endian::DeserializableLittleEndian;
use crate::serialization::encoding::le_bytes_of;
use crate::serialization::error_serialization::ErrorSerialization;
use crate::serialization::serializable_internal_order::{write_slice, SerializableInternalOrder};
use crate::serialization::serializable_little_endian::SerializableLittleEndian;

verus! {

/// The on-disk code for a node's parent: its index, or `u64::MAX` for the
/// root.
pub open spec fn parent_code(node: NodeChain) -> u64 {
    match node.index_previous_node {
        Some(parent) => parent as u64,
        None => u64::MAX,
    }
}

/// One node record of the chain blob: the block's wire bytes, then the
/// parent code as a compact size.
pub open spec fn node_record_bytes(node: NodeChain) -> Seq<u8> {
    node.block.io_bytes() + (CompactSize { value: parent_code(node) }).le_bytes()
}

/// The node records of the chain blob, one after the other.
pub open spec fn node_records_bytes(blocks: Seq<NodeChain>) -> Seq<u8>
    decreases blocks.len(),
{
    if blocks.len() == 0 {
        Seq::empty()
    } else {
        node_record_bytes(blocks[0]) + node_records_bytes(blocks.drop_first())
    }
}

/// Encoding one more node appends its record.
pub proof fn lemma_node_records_bytes_snoc(blocks: Seq<NodeChain>, node: NodeChain)
    ensures
        node_records_bytes(blocks.push(node)) == node_records_bytes(blocks) + node_record_bytes(
            node,
        ),
    decreases blocks.len(),
{
    if blocks.len() == 0 {
        assert(blocks.push(node).drop_first() =~= Seq::<NodeChain>::empty());
        assert(node_records_bytes(Seq::<NodeChain>::empty()) =~= Seq::<u8>::empty());
        assert(blocks.push(node)[0] == node);
        assert(node_records_bytes(blocks.push(node)) =~= node_records_bytes(blocks)
            + node_record_bytes(node));
    } else {
        lemma_node_records_bytes_snoc(blocks.drop_first(), node);
        assert(blocks.push(node).drop_first() =~= blocks.drop_first().push(node));
        assert(node_records_bytes(blocks.push(node)) =~= node_records_bytes(blocks)
            + node_record_bytes(node));
    }
}

/// The tip index array of the chain blob: each tip as eight little-endian
/// bytes.
pub open spec fn tip_array_bytes(tips: Seq<usize>) -> Seq<u8>
    decreases tips.len(),
{
    if tips.len() == 0 {
        Seq::empty()
    } else {
        le_bytes_of(tips[0] as nat, 8) + tip_array_bytes(tips.drop_first())
    }
}

/// Encoding one more tip appends its eight bytes.
pub proof fn lemma_tip_array_bytes_snoc(tips: Seq<usize>, tip: usize)
    ensures
        tip_array_bytes(tips.push(tip)) == tip_array_bytes(tips) + le_bytes_of(tip as nat, 8),
    decreases tips.len(),
{
    if tips.len() == 0 {
        assert(tips.push(tip).drop_first() =~= Seq::<usize>::empty());
        assert(tip_array_bytes(Seq::<usize>::empty()) =~= Seq::<u8>::empty());
        assert(tips.push(tip)[0] == tip);
        assert(tip_array_bytes(tips.push(tip)) =~= tip_array_bytes(tips) + le_bytes_of(
            tip as nat,
            8,
        ));
    } else {
        lemma_tip_array_bytes_snoc(tips.drop_first(), tip);
        assert(tips.push(tip).drop_first() =~= tips.drop_first().push(tip));
        assert(tip_array_bytes(tips.push(tip)) =~= tip_array_bytes(tips) + le_bytes_of(
            tip as nat,
            8,
        ));
    }
}

/// The whole chain blob: a three-field header (tip count, node count, body
/// length, each eight little-endian bytes), the node records, and the tip
/// index array.
pub open spec fn chain_blob_bytes(chain: BlockChain) -> Seq<u8> {
    le_bytes_of(chain.last_blocks@.len() as nat, 8) + le_bytes_of(chain.blocks@.len() as nat, 8)
        + le_bytes_of(node_records_bytes(chain.blocks@).len() as nat, 8) + node_records_bytes(
        chain.blocks@,
    ) + tip_array_bytes(chain.last_blocks@)
}

/// The node records a byte stream starts with: each block's view with its
/// parent code, and what follows them.
pub open spec fn node_records_parse(data: Seq<u8>, count: nat) -> Option<
    (Seq<(super::block::BlockView, u64)>, Seq<u8>),
>
    decreases count,
{
    if count == 0 {
        Some((Seq::empty(), data))
    } else {
        match Block::io_parse(data) {
            Some((block, rest)) => match CompactSize::le_parse(rest) {
                Some((code, rest)) => match node_records_parse(rest, (count - 1) as nat) {
                    Some((items, tail)) => Some((seq![(block, code.value)] + items, tail)),
                    None => None,
                },
                None => None,
            },
            None => None,
        }
    }
}

/// The tip indices a byte stream starts with, and what follows them.
pub open spec fn tip_array_parse(data: Seq<u8>, count: nat) -> Option<(Seq<u64>, Seq<u8>)>
    decreases count,
{
    if count == 0 {
        Some((Seq::empty(), data))
    } else {
        match <u64 as DeserializableLittleEndian>::le_parse(data) {
            Some((tip, rest)) => match tip_array_parse(rest, (count - 1) as nat) {
                Some((items, tail)) => Some((seq![tip] + items, tail)),
                None => None,
            },
            None => None,
        }
    }
}

/// What a chain blob holds: its node records and its tip indices, and what
/// follows the blob.
pub open spec fn chain_blob_parse(data: Seq<u8>) -> Option<
    ((Seq<(super::block::BlockView, u64)>, Seq<u64>), Seq<u8>),
> {
    match <u64 as DeserializableLittleEndian>::le_parse(data) {
        Some((tip_count, rest)) => match <u64 as DeserializableLittleEndian>::le_parse(rest) {
            Some((node_count, rest)) => match <u64 as DeserializableLittleEndian>::le_parse(rest) {
                Some((body_length, rest)) => match node_records_parse(rest, node_count as nat) {
                    Some((records, rest)) => match tip_array_parse(rest, tip_count as nat) {
                        Some((tips, tail)) => Some(((records, tips), tail)),
                        None => None,
                    },
                    None => None,
                },
                None => None,
            },
            None => None,
        },
        None => None,
    }
}

/// Whether parsed records and tips make a well-formed chain: a parentless
/// root first, every later node naming an earlier parent, every tip in
/// range.
pub open spec fn chain_records_valid(
    records: Seq<(super::block::BlockView, u64)>,
    tips: Seq<u64>,
) -> bool {
    &&& records.len() >= 1
    &&& records[0].1 == u64::MAX
    &&& (forall|i: int| 1 <= i < records.len() ==> (#[trigger] records[i]).1 < i)
    &&& (forall|k: int| 0 <= k < tips.len() ==> (#[trigger] tips[k]) < records.len())
}

/// One node record reads back as its block's view and its parent code, and
/// a run of records steps past it.
#[verifier::rlimit(100)]
proof fn lemma_node_record_step(head: NodeChain, remainder: Seq<u8>, count: nat)
    requires
        count >= 1,
    ensures
        node_records_parse(node_record_bytes(head) + remainder, count) == (
        match node_records_parse(remainder, (count - 1) as nat) {
            Some((items, tail)) => Some::<(Seq<(super::block::BlockView, u64)>, Seq<u8>)>(
                (seq![(head.block.deep_view(), parent_code(head))] + items, tail),
            ),
            None => None::<(Seq<(super::block::BlockView, u64)>, Seq<u8>)>,
        }),
{
    let code = CompactSize { value: parent_code(head) };
    vstd::seq_lib::lemma_concat_associative(
        head.block.io_bytes(),
        code.le_bytes(),
        remainder,
    );
    Block::lemma_io_round_trip(head.block, code.le_bytes() + remainder);
    crate::messages::compact_size::lemma_compact_size_round_trip(code, remainder);
}

/// Reading back the concatenated node records gives each block's view with
/// its parent code, in order.
#[verifier::rlimit(100)]
pub proof fn lemma_node_records_round_trip(blocks: Seq<NodeChain>, rest: Seq<u8>)
    ensures
        node_records_parse(node_records_bytes(blocks) + rest, blocks.len() as nat) == Some(
            (
                Seq::new(
                    blocks.len(),
                    |i: int| (blocks[i].block.deep_view(), parent_code(blocks[i])),
                ),
                rest,
            ),
        ),
    decreases blocks.len(),
{
    let records = Seq::new(
        blocks.len(),
        |i: int| (blocks[i].block.deep_view(), parent_code(blocks[i])),
    );
    if blocks.len() == 0 {
        assert(node_records_bytes(blocks) + rest =~= rest);
        assert(records =~= Seq::<(super::block::BlockView, u64)>::empty());
    } else {
        let head = blocks[0];
        let tail = blocks.drop_first();
        let remainder = node_records_bytes(tail) + rest;
        vstd::seq_lib::lemma_concat_associative(node_record_bytes(head), node_records_bytes(tail), rest);
        assert(node_records_bytes(blocks) == node_record_bytes(head) + node_records_bytes(tail));
        lemma_node_record_step(head, remainder, blocks.len() as nat);
        lemma_node_records_round_trip(tail, rest);
        let tail_records = Seq::new(
            tail.len(),
            |i: int| (tail[i].block.deep_view(), parent_code(tail[i])),
        );
        assert(seq![(head.block.deep_view(), parent_code(head))] + tail_records =~= records);
    }
}

/// Reading back the concatenated tip bytes gives the tips, in order.
pub proof fn lemma_tip_array_round_trip(tips: Seq<usize>, rest: Seq<u8>)
    ensures
        tip_array_parse(tip_array_bytes(tips) + rest, tips.len() as nat) == Some(
            (Seq::new(tips.len(), |i: int| tips[i] as u64), rest),
        ),
    decreases tips.len(),
{
    let values = Seq::new(tips.len(), |i: int| tips[i] as u64);
    if tips.len() == 0 {
        assert(tip_array_bytes(tips) + rest =~= rest);
        assert(values =~= Seq::<u64>::empty());
    } else {
        let head = tips[0];
        let tail = tips.drop_first();
        assert(tip_array_bytes(tips) + rest =~= le_bytes_of(head as nat, 8) + (tip_array_bytes(
            tail,
        ) + rest));
        crate::serialization::deserializable_little_endian::lemma_u64_le_round_trip(
            head as u64,
            tip_array_bytes(tail) + rest,
        );
        lemma_tip_array_round_trip(tail, rest);
        let tail_values = Seq::new(tail.len(), |i: int| tail[i] as u64);
        assert(seq![head as u64] + tail_values =~= values);
    }
}

/// The chain blob reads back as exactly the chain it was written from: its
/// node views with their parent codes and its tips, leaving what followed.
#[verifier::rlimit(100)]
pub proof fn lemma_chain_blob_round_trip(chain: BlockChain, rest: Seq<u8>)
    requires
        chain.blocks@.len() <= u64::MAX,
        chain.last_blocks@.len() <= u64::MAX,
        node_records_bytes(chain.blocks@).len() <= u64::MAX,
    ensures
        chain_blob_parse(chain_blob_bytes(chain) + rest) == Some(
            (
                (
                    Seq::new(
                        chain.blocks@.len(),
                        |i: int| (chain.blocks@[i].block.deep_view(), parent_code(
                            chain.blocks@[i],
                        )),
                    ),
                    Seq::new(chain.last_blocks@.len(), |i: int| chain.last_blocks@[i] as u64),
                ),
                rest,
            ),
        ),
        chain.wf() ==> (match chain_blob_parse(chain_blob_bytes(chain) + rest) {
            Some(((records, tips), tail)) => chain_records_valid(records, tips),
            None => false,
        }),
{
    let tip_count = chain.last_blocks@.len() as u64;
    let node_count = chain.blocks@.len() as u64;
    let records_bytes = node_records_bytes(chain.blocks@);
    let body_length = records_bytes.len() as u64;
    let tips_bytes = tip_array_bytes(chain.last_blocks@);
    let blob = chain_blob_bytes(chain) + rest;
    let s3 = records_bytes + (tips_bytes + rest);
    let s2 = le_bytes_of(body_length as nat, 8) + s3;
    let s1 = le_bytes_of(node_count as nat, 8) + s2;
    assert(blob =~= le_bytes_of(tip_count as nat, 8) + s1);
    crate::serialization::deserializable_little_endian::lemma_u64_le_round_trip(tip_count, s1);
    crate::serialization::deserializable_little_endian::lemma_u64_le_round_trip(node_count, s2);
    crate::serialization::deserializable_little_endian::lemma_u64_le_round_trip(body_length, s3);
    lemma_node_records_round_trip(chain.blocks@, tips_bytes + rest);
    lemma_tip_array_round_trip(chain.last_blocks@, rest);
    if chain.wf() {
        let records = Seq::new(
            chain.blocks@.len(),
            |i: int| (chain.blocks@[i].block.deep_view(), parent_code(chain.blocks@[i])),
        );
        let tips = Seq::new(chain.last_blocks@.len(), |i: int| chain.last_blocks@[i] as u64);
        assert forall|i: int| 1 <= i < records.len() implies (#[trigger] records[i]).1 < i by {
            assert(chain.blocks@[i].index_previous_node is Some);
            assert(chain.blocks@[i].index_previous_node.unwrap() < i);
        }
        assert(chain_records_valid(records, tips));
    }
}

/// The records a run of chain nodes stands for: each block's view with its
/// parent code.
pub open spec fn records_of(blocks: Seq<NodeChain>) -> Seq<(super::block::BlockView, u64)> {
    Seq::new(blocks.len(), |i: int| (blocks[i].block.deep_view(), parent_code(blocks[i])))
}

/// A successful node-record parse returns exactly `count` records.
pub proof fn lemma_node_records_parse_len(data: Seq<u8>, count: nat)
    ensures
        node_records_parse(data, count) matches Some((records, tail)) ==> records.len() == count,
    decreases count,
{
    if count > 0 {
        match Block::io_parse(data) {
            Some((block, rest)) => match CompactSize::le_parse(rest) {
                Some((code, rest)) => {
                    lemma_node_records_parse_len(rest, (count - 1) as nat);
                },
                None => {},
            },
            None => {},
        }
    }
}

/// A successful tip parse returns exactly `count` tips.
pub proof fn lemma_tip_array_parse_len(data: Seq<u8>, count: nat)
    ensures
        tip_array_parse(data, count) matches Some((tips, tail)) ==> tips.len() == count,
    decreases count,
{
    if count > 0 {
        match <u64 as DeserializableLittleEndian>::le_parse(data) {
            Some((tip, rest)) => {
                lemma_tip_array_parse_len(rest, (count - 1) as nat);
            },
            None => {},
        }
    }
}

impl BlockChain {
    /// Appends the chain's persisted form, ready to be written to disk on a
    /// clean shutdown.
    pub fn save_to_bytes(&self, stream: &mut Vec<u8>) -> (r: Result<(), ErrorSerialization>)
        ensures
            r is Ok,
            final(stream)@ == old(stream)@ + chain_blob_bytes(*self),
    {
        let mut body: Vec<u8> = Vec::new();
        let mut i: usize = 0;
        proof {
            assert(self.blocks@.take(0) =~= Seq::<NodeChain>::empty());
            assert(body@ =~= node_records_bytes(self.blocks@.take(0)));
        }
        while i < self.blocks.len()
            invariant
                i <= self.blocks@.len(),
                body@ == node_records_bytes(self.blocks@.take(i as int)),
            decreases self.blocks@.len() - i,
        {
            let ghost pre = body@;
            let node = &self.blocks[i];
            node.block.io_serialize(&mut body)?;
            let code: u64 = match node.index_previous_node {
                Some(parent) => parent as u64,
                None => u64::MAX,
            };
            CompactSize::new(code).le_serialize(&mut body)?;
            proof {
                lemma_node_records_bytes_snoc(self.blocks@.take(i as int), self.blocks@[i as int]);
                assert(self.blocks@.take(i + 1) =~= self.blocks@.take(i as int).push(
                    self.blocks@[i as int],
                ));
                assert(code == parent_code(self.blocks@[i as int]));
                assert(body@ =~= pre + node_record_bytes(self.blocks@[i as int]));
            }
            i = i + 1;
        }
        proof {
            assert(self.blocks@.take(self.blocks@.len() as int) =~= self.blocks@);
        }
        (self.last_blocks.len() as u64).le_serialize(stream)?;
        (self.blocks.len() as u64).le_serialize(stream)?;
        (body.len() as u64).le_serialize(stream)?;
        write_slice(stream, body.as_slice());
        let ghost tips_from = stream@;
        let mut k: usize = 0;
        proof {
            assert(self.last_blocks@.take(0) =~= Seq::<usize>::empty());
            assert(stream@ =~= tips_from + tip_array_bytes(self.last_blocks@.take(0)));
        }
        while k < self.last_blocks.len()
            invariant
                k <= self.last_blocks@.len(),
                stream@ == tips_from + tip_array_bytes(self.last_blocks@.take(k as int)),
            decreases self.last_blocks@.len() - k,
        {
            let ghost pre = stream@;
            (self.last_blocks[k] as u64).le_serialize(stream)?;
            proof {
                lemma_tip_array_bytes_snoc(
                    self.last_blocks@.take(k as int),
                    self.last_blocks@[k as int],
                );
                assert(self.last_blocks@.take(k + 1) =~= self.last_blocks@.take(k as int).push(
                    self.last_blocks@[k as int],
                ));
                assert(stream@ =~= pre + le_bytes_of(self.last_blocks@[k as int] as nat, 8));
            }
            k = k + 1;
        }
        proof {
            assert(self.last_blocks@.take(self.last_blocks@.len() as int)
                =~= self.last_blocks@);
            assert(stream@ =~= old(stream)@ + chain_blob_bytes(*self));
        }
        Ok(())
    }

    /// Reads a chain blob back, checking as it goes that what is read makes
    /// a well-formed chain: a parentless root first, every later node naming
    /// an earlier parent, every tip index in range. A blob that does not
    /// parse, or whose records do not make such a chain, is refused.
    #[verifier::rlimit(100)]
    pub fn load_from_bytes(stream: &mut &[u8]) -> (r: Result<BlockChain, ErrorBlock>)
        ensures
            (r is Ok <==> (match chain_blob_parse(old(stream)@) {
                Some(((records, tips), tail)) => chain_records_valid(records, tips),
                None => false,
            })),
            (r matches Ok(c) ==> c.wf() && (match chain_blob_parse(old(stream)@) {
                Some(((records, tips), tail)) => {
                    &&& c.blocks@.len() == records.len()
                    &&& records_of(c.blocks@) == records
                    &&& c.last_blocks@.len() == tips.len()
                    &&& (forall|k: int|
                        0 <= k < tips.len() ==> (#[trigger] c.last_blocks@[k]) as u64 == tips[k])
                    &&& final(stream)@ == tail
                },
                None => false,
            })),
    {
        let tip_count = match u64::le_deserialize(stream) {
            Ok(tip_count) => tip_count,
            Err(_) => {
                return Err(ErrorBlock::CouldNotHash);
            },
        };
        let ghost after_tips_count = stream@;
        let node_count = match u64::le_deserialize(stream) {
            Ok(node_count) => node_count,
            Err(_) => {
                return Err(ErrorBlock::CouldNotHash);
            },
        };
        let ghost after_node_count = stream@;
        let _body_length = match u64::le_deserialize(stream) {
            Ok(body_length) => body_length,
            Err(_) => {
                return Err(ErrorBlock::CouldNotHash);
            },
        };
        let ghost entry_start = stream@;
        let mut blocks: Vec<NodeChain> = Vec::new();
        let mut i: u64 = 0;
        while i < node_count
            invariant
                blocks@.len() == i <= node_count,
                i >= 1 ==> blocks@.len() >= 1 && blocks@[0].index_previous_node is None,
                forall|j: int| 0 <= j < i ==> (#[trigger] blocks@[j]).wf(),
                forall|j: int|
                    1 <= j < i ==> (#[trigger] blocks@[j]).index_previous_node is Some
                        && blocks@[j].index_previous_node.unwrap() < j,
                <u64 as DeserializableLittleEndian>::le_parse(old(stream)@) == Some::<
                    (u64, Seq<u8>),
                >((tip_count, after_tips_count)),
                <u64 as DeserializableLittleEndian>::le_parse(after_tips_count) == Some::<
                    (u64, Seq<u8>),
                >((node_count, after_node_count)),
                <u64 as DeserializableLittleEndian>::le_parse(after_node_count) matches Some(p)
                    && p.1 == entry_start,
                node_records_parse(entry_start, node_count as nat) == (
                match node_records_parse(stream@, (node_count - i) as nat) {
                    Some((more, tail)) => Some::<(Seq<(super::block::BlockView, u64)>, Seq<u8>)>(
                        (records_of(blocks@) + more, tail),
                    ),
                    None => None::<(Seq<(super::block::BlockView, u64)>, Seq<u8>)>,
                }),
            decreases node_count - i,
        {
            let ghost pre = stream@;
            let ghost records_pre = records_of(blocks@);
            let block = match Block::io_deserialize(stream) {
                Ok(block) => block,
                Err(_) => {
                    proof {
                        assert(Block::io_parse(pre) is None);
                        assert(node_records_parse(pre, (node_count - i) as nat) is None);
                        assert(chain_blob_parse(old(stream)@) is None);
                    }
                    return Err(ErrorBlock::CouldNotHash);
                },
            };
            let ghost after_block = stream@;
            let code = match CompactSize::le_deserialize(stream) {
                Ok(code) => code,
                Err(_) => {
                    proof {
                        assert(CompactSize::le_parse(after_block) is None);
                        assert(node_records_parse(pre, (node_count - i) as nat) is None);
                        assert(chain_blob_parse(old(stream)@) is None);
                    }
                    return Err(ErrorBlock::CouldNotHash);
                },
            };
            proof {
                match node_records_parse(stream@, (node_count - i - 1) as nat) {
                    Some((more, tail)) => {
                        assert(node_records_parse(pre, (node_count - i) as nat) == Some::<
                            (Seq<(super::block::BlockView, u64)>, Seq<u8>),
                        >((seq![(block.deep_view(), code.value)] + more, tail)));
                    },
                    None => {
                        assert(node_records_parse(pre, (node_count - i) as nat) is None);
                    },
                }
            }
            if i == 0 {
                if code.value != u64::MAX {
                    proof {
                        match chain_blob_parse(old(stream)@) {
                            Some(((records, tips), tail)) => {
                                assert(records[0] == (block.deep_view(), code.value));
                                assert(!chain_records_valid(records, tips));
                            },
                            None => {},
                        }
                    }
                    return Err(ErrorBlock::NodeChainReferenceNotFound);
                }
                let node = match NodeChain::first(block) {
                    Ok(node) => node,
                    Err(error) => {
                        proof {
                            assert(false);
                        }
                        return Err(error);
                    },
                };
                blocks.push(node);
            } else {
                if code.value >= i {
                    proof {
                        match chain_blob_parse(old(stream)@) {
                            Some(((records, tips), tail)) => {
                                assert(records[i as int] == (block.deep_view(), code.value));
                                assert(!(records[i as int].1 < i));
                                assert(!chain_records_valid(records, tips));
                            },
                            None => {},
                        }
                    }
                    return Err(ErrorBlock::NodeChainReferenceNotFound);
                }
                let current_len: usize = blocks.len();
                proof {
                    assert(blocks@.len() == current_len);
                    assert(code.value < i);
                    assert(code.value <= usize::MAX as u64);
                    assert(((code.value as usize) as u64) == code.value);
                }
                let node = match NodeChain::new(block, code.value as usize) {
                    Ok(node) => node,
                    Err(error) => {
                        proof {
                            assert(false);
                        }
                        return Err(error);
                    },
                };
                blocks.push(node);
            }
            i = i + 1;
            proof {
                assert(records_of(blocks@) =~= records_pre.push(
                    (blocks@[i - 1].block.deep_view(), parent_code(blocks@[i - 1])),
                ));
                assert(blocks@[i - 1].block.deep_view() == block.deep_view());
                assert(parent_code(blocks@[i - 1]) == code.value);
                match node_records_parse(stream@, (node_count - i) as nat) {
                    Some((more, tail)) => {
                        assert(records_pre + (seq![(block.deep_view(), code.value)] + more)
                            =~= records_of(blocks@) + more);
                    },
                    None => {},
                }
            }
        }
        proof {
            assert(node_records_parse(stream@, 0) == Some::<
                (Seq<(super::block::BlockView, u64)>, Seq<u8>),
            >((Seq::empty(), stream@)));
            assert(records_of(blocks@) + Seq::<(super::block::BlockView, u64)>::empty()
                =~= records_of(blocks@));
        }
        if blocks.len() == 0 {
            proof {
                match chain_blob_parse(old(stream)@) {
                    Some(((records, tips), tail)) => {
                        lemma_node_records_parse_len(entry_start, node_count as nat);
                        assert(records.len() == 0);
                        assert(!chain_records_valid(records, tips));
                    },
                    None => {},
                }
            }
            return Err(ErrorBlock::NodeChainReferenceNotFound);
        }
        let ghost tips_start = stream@;
        let mut last_blocks: Vec<usize> = Vec::new();
        let mut k: u64 = 0;
        while k < tip_count
            invariant
                last_blocks@.len() == k <= tip_count,
                blocks@.len() >= 1,
                blocks@.len() == node_count,
                forall|j: int| 0 <= j < k ==> (#[trigger] last_blocks@[j]) < blocks@.len(),
                tip_array_parse(tips_start, tip_count as nat) == (
                match tip_array_parse(stream@, (tip_count - k) as nat) {
                    Some((more, tail)) => Some::<(Seq<u64>, Seq<u8>)>(
                        (
                            Seq::new(last_blocks@.len(), |j: int| last_blocks@[j] as u64) + more,
                            tail,
                        ),
                    ),
                    None => None::<(Seq<u64>, Seq<u8>)>,
                }),
                node_records_parse(entry_start, node_count as nat) == Some::<
                    (Seq<(super::block::BlockView, u64)>, Seq<u8>),
                >((records_of(blocks@), tips_start)),
                <u64 as DeserializableLittleEndian>::le_parse(old(stream)@) == Some::<
                    (u64, Seq<u8>),
                >((tip_count, after_tips_count)),
                <u64 as DeserializableLittleEndian>::le_parse(after_tips_count) == Some::<
                    (u64, Seq<u8>),
                >((node_count, after_node_count)),
                <u64 as DeserializableLittleEndian>::le_parse(after_node_count) matches Some(p)
                    && p.1 == entry_start,
            decreases tip_count - k,
        {
            let ghost pre = stream@;
            let ghost tips_pre = Seq::new(last_blocks@.len(), |j: int| last_blocks@[j] as u64);
            let tip = match u64::le_deserialize(stream) {
                Ok(tip) => tip,
                Err(_) => {
                    proof {
                        assert(tip_array_parse(pre, (tip_count - k) as nat) is None);
                        assert(chain_blob_parse(old(stream)@) is None);
                    }
                    return Err(ErrorBlock::CouldNotHash);
                },
            };
            proof {
                match tip_array_parse(stream@, (tip_count - k - 1) as nat) {
                    Some((more, tail)) => {
                        assert(tip_array_parse(pre, (tip_count - k) as nat) == Some::<
                            (Seq<u64>, Seq<u8>),
                        >((seq![tip] + more, tail)));
                    },
                    None => {
                        assert(tip_array_parse(pre, (tip_count - k) as nat) is None);
                    },
                }
            }
            if tip >= blocks.len() as u64 {
                proof {
                    match chain_blob_parse(old(stream)@) {
                        Some(((records, tips), tail)) => {
                            lemma_node_records_parse_len(entry_start, node_count as nat);
                            assert(tips[k as int] == tip);
                            assert(records.len() == node_count);
                            assert(!(tips[k as int] < records.len()));
                            assert(!chain_records_valid(records, tips));
                        },
                        None => {},
                    }
                }
                return Err(ErrorBlock::NodeChainReferenceNotFound);
            }
            last_blocks.push(tip as usize);
            k = k + 1;
            proof {
                assert(Seq::new(last_blocks@.len(), |j: int| last_blocks@[j] as u64)
                    =~= tips_pre.push(tip));
                match tip_array_parse(stream@, (tip_count - k) as nat) {
                    Some((more, tail)) => {
                        assert(tips_pre + (seq![tip] + more) =~= tips_pre.push(tip) + more);
                    },
                    None => {},
                }
            }
        }
        proof {
            assert(tip_array_parse(stream@, 0) == Some::<(Seq<u64>, Seq<u8>)>(
                (Seq::empty(), stream@),
            ));
            let built = Seq::new(last_blocks@.len(), |j: int| last_blocks@[j] as u64);
            assert(built + Seq::<u64>::empty() =~= built);
        }
        let chain = BlockChain { blocks, last_blocks };
        proof {
            match chain_blob_parse(old(stream)@) {
                Some(((records, tips), tail)) => {
                    lemma_node_records_parse_len(entry_start, node_count as nat);
                    assert(records == records_of(chain.blocks@));
                    assert forall|j: int| 1 <= j < records.len() implies (
                    #[trigger] records[j]).1 < j by {
                        assert(records[j].1 == parent_code(chain.blocks@[j]));
                        assert(chain.blocks@[j].index_previous_node is Some);
                        assert(chain.blocks@[j].index_previous_node.unwrap() < j);
                        assert(parent_code(chain.blocks@[j])
                            == chain.blocks@[j].index_previous_node.unwrap() as u64);
                    }
                    assert(records[0].1 == parent_code(chain.blocks@[0]));
                    assert(chain_records_valid(records, tips));
                },
                None => {
                    assert(false);
                },
            }
        }
        Ok(chain)
    }
}

} // verus!
