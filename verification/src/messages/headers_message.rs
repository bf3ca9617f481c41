use vstd::prelude::*;

use super::command_name::CommandName;
use super::compact_size::CompactSize;
use super::message::Message;
use crate::block_structure::block_header::{BlockHeader, BlockHeaderView};
use crate::serialization::deserializable_internal_order::DeserializableInternalOrder;
use crate::serialization::deserializable_little_endian::DeserializableLittleEndian;
use crate::serialization::error_serialization::ErrorSerialization;
use crate::serialization::serializable_internal_order::SerializableInternalOrder;
use crate::serialization::serializable_little_endian::SerializableLittleEndian;

verus! {

/// A batch of block headers, answering a headers request.
#[derive(Debug, Clone)]
pub struct HeadersMessage {
    pub headers: Vec<BlockHeader>,
}

/// The mathematical shape of a headers batch.
#[verifier::ext_equal]
pub ghost struct HeadersMessageView {
    pub headers: Seq<BlockHeaderView>,
}

impl DeepView for HeadersMessage {
    type V = HeadersMessageView;

    open spec fn deep_view(&self) -> HeadersMessageView {
        HeadersMessageView { headers: self.headers.deep_view() }
    }
}

/// The wire bytes of one batch entry: the 80 header bytes, then the count of
/// transactions that a full block under this header would carry.
pub open spec fn header_entry_bytes(header: BlockHeader) -> Seq<u8> {
    header.io_bytes() + header.transaction_count.le_bytes()
}

/// The wire bytes of a run of batch entries, one after the other.
pub open spec fn header_entries_bytes(headers: Seq<BlockHeader>) -> Seq<u8>
    decreases headers.len(),
{
    if headers.len() == 0 {
        Seq::empty()
    } else {
        header_entry_bytes(headers[0]) + header_entries_bytes(headers.drop_first())
    }
}

/// Encoding one more entry appends its bytes.
pub proof fn lemma_header_entries_bytes_snoc(headers: Seq<BlockHeader>, header: BlockHeader)
    ensures
        header_entries_bytes(headers.push(header)) == header_entries_bytes(headers)
            + header_entry_bytes(header),
    decreases headers.len(),
{
    if headers.len() == 0 {
        assert(headers.push(header).drop_first() =~= Seq::<BlockHeader>::empty());
        assert(header_entries_bytes(Seq::<BlockHeader>::empty()) =~= Seq::<u8>::empty());
        assert(headers.push(header)[0] == header);
        assert(header_entries_bytes(headers.push(header)) =~= header_entries_bytes(headers)
            + header_entry_bytes(header));
    } else {
        lemma_header_entries_bytes_snoc(headers.drop_first(), header);
        assert(headers.push(header).drop_first() =~= headers.drop_first().push(header));
        assert(header_entries_bytes(headers.push(header)) =~= header_entries_bytes(headers)
            + header_entry_bytes(header));
    }
}

/// The `count` batch entries a byte stream starts with and what follows them;
/// `None` when it does not hold that many.
pub open spec fn header_entries_parse(data: Seq<u8>, count: nat) -> Option<
    (Seq<BlockHeaderView>, Seq<u8>),
>
    decreases count,
{
    if count == 0 {
        Some((Seq::empty(), data))
    } else {
        match BlockHeader::io_parse(data) {
            Some((header, rest)) => match CompactSize::le_parse(rest) {
                Some((_, rest)) => match header_entries_parse(rest, (count - 1) as nat) {
                    Some((items, tail)) => Some((seq![header] + items, tail)),
                    None => None,
                },
                None => None,
            },
            None => None,
        }
    }
}

/// Reading back the concatenated entry bytes of headers gives their views,
/// in order.
pub proof fn lemma_header_entries_round_trip(headers: Seq<BlockHeader>, rest: Seq<u8>)
    ensures
        header_entries_parse(header_entries_bytes(headers) + rest, headers.len() as nat) == Some(
            (Seq::new(headers.len(), |i: int| headers[i].deep_view()), rest),
        ),
    decreases headers.len(),
{
    let views = Seq::new(headers.len(), |i: int| headers[i].deep_view());
    if headers.len() == 0 {
        assert(header_entries_bytes(headers) + rest =~= rest);
        assert(views =~= Seq::<BlockHeaderView>::empty());
    } else {
        let head = headers[0];
        let tail = headers.drop_first();
        let count_bytes = head.transaction_count.le_bytes() + (header_entries_bytes(tail) + rest);
        assert(header_entries_bytes(headers) + rest =~= head.io_bytes() + count_bytes);
        BlockHeader::lemma_io_round_trip(head, count_bytes);
        super::compact_size::lemma_compact_size_round_trip(
            head.transaction_count,
            header_entries_bytes(tail) + rest,
        );
        lemma_header_entries_round_trip(tail, rest);
        let tail_views = Seq::new(tail.len(), |i: int| tail[i].deep_view());
        assert(seq![head.deep_view()] + tail_views =~= views);
    }
}

impl SerializableInternalOrder for HeadersMessage {
    open spec fn io_bytes(&self) -> Seq<u8> {
        (CompactSize { value: self.headers@.len() as u64 }).le_bytes() + header_entries_bytes(
            self.headers@,
        )
    }

    open spec fn io_wf(&self) -> bool {
        true
    }

    fn io_serialize(&self, stream: &mut Vec<u8>) -> (r: Result<(), ErrorSerialization>) {
        CompactSize::new(self.headers.len() as u64).le_serialize(stream)?;
        let mut i: usize = 0;
        proof {
            assert(self.headers@.take(0) =~= Seq::<BlockHeader>::empty());
            assert(stream@ =~= stream@ + header_entries_bytes(self.headers@.take(0)));
        }
        while i < self.headers.len()
            invariant
                i <= self.headers@.len(),
                stream@ == old(stream)@ + (CompactSize {
                    value: self.headers@.len() as u64,
                }).le_bytes() + header_entries_bytes(self.headers@.take(i as int)),
            decreases self.headers@.len() - i,
        {
            let ghost pre = stream@;
            self.headers[i].io_serialize(stream)?;
            self.headers[i].transaction_count.le_serialize(stream)?;
            proof {
                lemma_header_entries_bytes_snoc(
                    self.headers@.take(i as int),
                    self.headers@[i as int],
                );
                assert(self.headers@.take(i + 1) =~= self.headers@.take(i as int).push(
                    self.headers@[i as int],
                ));
                assert(stream@ =~= pre + header_entry_bytes(self.headers@[i as int]));
            }
            i = i + 1;
        }
        proof {
            assert(self.headers@.take(self.headers@.len() as int) =~= self.headers@);
            assert(stream@ =~= old(stream)@ + self.io_bytes());
        }
        Ok(())
    }
}

impl DeserializableInternalOrder for HeadersMessage {
    open spec fn io_parse(data: Seq<u8>) -> Option<(HeadersMessageView, Seq<u8>)> {
        match CompactSize::le_parse(data) {
            Some((count, rest)) => match header_entries_parse(rest, count.value as nat) {
                Some((headers, rest)) => Some((HeadersMessageView { headers }, rest)),
                None => None,
            },
            None => None,
        }
    }

    fn io_deserialize(stream: &mut &[u8]) -> (r: Result<HeadersMessage, ErrorSerialization>) {
        let saved: &[u8] = *stream;
        let count = CompactSize::le_deserialize(stream)?;
        let mut headers: Vec<BlockHeader> = Vec::new();
        let mut i: u64 = 0;
        let ghost entry_start = stream@;
        while i < count.value
            invariant
                i <= count.value,
                headers@.len() == i,
                saved@ == old(stream)@,
                CompactSize::le_parse(saved@) == Some::<(CompactSize, Seq<u8>)>(
                    (count, entry_start),
                ),
                header_entries_parse(entry_start, count.value as nat) == (
                match header_entries_parse(stream@, (count.value - i) as nat) {
                    Some((more, tail)) => Some::<(Seq<BlockHeaderView>, Seq<u8>)>(
                        (headers.deep_view() + more, tail),
                    ),
                    None => None::<(Seq<BlockHeaderView>, Seq<u8>)>,
                }),
            decreases count.value - i,
        {
            let ghost pre = stream@;
            let ghost vitems = headers.deep_view();
            let mut header = match BlockHeader::io_deserialize(stream) {
                Ok(header) => header,
                Err(error) => {
                    proof {
                        assert(BlockHeader::io_parse(pre) is None);
                        assert(header_entries_parse(pre, (count.value - i) as nat) is None);
                        assert(header_entries_parse(entry_start, count.value as nat) is None);
                        assert(HeadersMessage::io_parse(saved@) is None);
                    }
                    *stream = saved;
                    return Err(error);
                },
            };
            let ghost after_header = stream@;
            let entry_count = match CompactSize::le_deserialize(stream) {
                Ok(entry_count) => entry_count,
                Err(error) => {
                    proof {
                        assert(CompactSize::le_parse(after_header) is None);
                        assert(header_entries_parse(pre, (count.value - i) as nat) is None);
                        assert(header_entries_parse(entry_start, count.value as nat) is None);
                        assert(HeadersMessage::io_parse(saved@) is None);
                    }
                    *stream = saved;
                    return Err(error);
                },
            };
            header.transaction_count = entry_count;
            let ghost vitem = header.deep_view();
            headers.push(header);
            proof {
                assert(headers.deep_view() =~= vitems.push(vitem));
            }
            i = i + 1;
            proof {
                match header_entries_parse(stream@, (count.value - i) as nat) {
                    Some((more, tail)) => {
                        assert(vitems + (seq![vitem] + more) =~= vitems.push(vitem) + more);
                    },
                    None => {},
                }
            }
        }
        proof {
            assert(header_entries_parse(stream@, 0) == Some(
                (Seq::<BlockHeaderView>::empty(), stream@),
            ));
            assert(headers.deep_view() + Seq::<BlockHeaderView>::empty() =~= headers.deep_view());
            let message = HeadersMessage { headers };
            assert(message.deep_view() =~= HeadersMessageView { headers: headers.deep_view() });
            assert(header_entries_parse(entry_start, count.value as nat) == Some(
                (headers.deep_view(), stream@),
            ));
            assert(HeadersMessage::io_parse(saved@) == Some((message.deep_view(), stream@)));
        }
        Ok(HeadersMessage { headers })
    }

    #[verifier::rlimit(100)]
    proof fn lemma_io_round_trip(value: HeadersMessage, rest: Seq<u8>) {
        assert(value.headers@.len() <= usize::MAX) by {
            assert(value.headers.len() == value.headers@.len());
        }
        let count = CompactSize { value: value.headers@.len() as u64 };
        let body = header_entries_bytes(value.headers@) + rest;
        assert(value.io_bytes() + rest =~= count.le_bytes() + body);
        super::compact_size::lemma_compact_size_round_trip(count, body);
        lemma_header_entries_round_trip(value.headers@, rest);
        assert(HeadersMessage::io_parse(value.io_bytes() + rest) == Some(
            (value.deep_view(), rest),
        )) by {
            assert(Seq::new(value.headers@.len(), |i: int| value.headers@[i].deep_view())
                =~= value.headers.deep_view());
            assert(HeadersMessageView { headers: value.headers.deep_view() } =~= value.deep_view());
        }
    }
}

impl Message for HeadersMessage {
    open spec fn spec_command() -> CommandName {
        CommandName::Headers
    }

    fn get_command_name() -> (r: CommandName) {
        CommandName::Headers
    }
}

} // verus!
