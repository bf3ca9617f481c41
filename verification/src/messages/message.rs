use vstd::prelude::*;

use super::command_name::CommandName;
use super::message_header::{MagicType, MessageHeader};
use crate::block_structure::hash::{hash256d_reduce, sha256d_of};
use crate::serialization::deserializable_internal_order::DeserializableInternalOrder;
use crate::serialization::encoding::le_bytes_of;
use crate::serialization::error_serialization::ErrorSerialization;
use crate::serialization::primitives::{bytes_equal, read_bytes};
use crate::serialization::serializable_internal_order::SerializableInternalOrder;
use crate::serialization::serializable_little_endian::SerializableLittleEndian;

verus! {

/// The whole frame of a message: magic, command, payload length, the first
/// four bytes of the payload's double SHA-256, then the payload.
pub open spec fn message_frame(
    magic_numbers: Seq<u8>,
    command: CommandName,
    payload: Seq<u8>,
) -> Seq<u8> {
    magic_numbers + super::command_name::command_name_bytes(command) + le_bytes_of(
        payload.len() as nat,
        4,
    ) + sha256d_of(payload).take(4) + payload
}

/// Whether a stream's first `payload_size` bytes are an acceptable payload
/// for the given frame header: they are all there, they decode as one whole
/// payload with nothing left over, and the first four bytes of their double
/// SHA-256 are the header's checksum.
pub open spec fn frame_accepts<M: DeserializableInternalOrder>(
    data: Seq<u8>,
    header: MessageHeader,
) -> bool {
    frame_accepts_at::<M>(data, header.payload_size, header.checksum@)
}

/// The same acceptance, phrased over the header's fields alone.
pub open spec fn frame_accepts_at<M: DeserializableInternalOrder>(
    data: Seq<u8>,
    payload_size: u32,
    checksum: Seq<u8>,
) -> bool {
    &&& data.len() >= payload_size
    &&& (match M::io_parse(data.take(payload_size as int)) {
        Some((payload, leftover)) => leftover.len() == 0,
        None => false,
    })
    &&& sha256d_of(data.take(payload_size as int)).take(4) == checksum
}

/// A message payload: it knows its command name, and framing and unframing
/// come with it.
pub trait Message: SerializableInternalOrder + DeserializableInternalOrder {
    /// The command this payload travels under.
    spec fn spec_command() -> CommandName;

    /// The command this payload travels under.
    fn get_command_name() -> (r: CommandName)
        ensures
            r == Self::spec_command(),
    ;

    /// Writes the payload's whole frame; a payload over the 32-bit length
    /// field is refused with the stream unchanged.
    fn serialize_message(stream: &mut Vec<u8>, magic_numbers: MagicType, payload: &Self) -> (r:
        Result<(), ErrorSerialization>)
        ensures
            payload.io_bytes().len() <= u32::MAX ==> r is Ok && final(stream)@ == old(stream)@
                + message_frame(magic_numbers@, Self::spec_command(), payload.io_bytes()),
            payload.io_bytes().len() > u32::MAX ==> r is Err && final(stream)@ == old(stream)@,
    {
        let mut payload_bytes: Vec<u8> = Vec::new();
        payload.io_serialize(&mut payload_bytes)?;
        proof {
            assert(payload_bytes@ =~= payload.io_bytes());
        }
        if payload_bytes.len() > u32::MAX as usize {
            return Err(ErrorSerialization::ErrorInSerialization(
                "the payload is over the length field's reach".to_string(),
            ));
        }
        let checksum = match hash256d_reduce(payload_bytes.as_slice()) {
            Ok(checksum) => checksum,
            Err(error) => {
                return Err(error);
            },
        };
        let header = MessageHeader {
            magic_numbers,
            command_name: Self::get_command_name(),
            payload_size: payload_bytes.len() as u32,
            checksum,
        };
        header.io_serialize(stream)?;
        crate::serialization::serializable_internal_order::write_slice(
            stream,
            payload_bytes.as_slice(),
        );
        proof {
            assert(stream@ =~= old(stream)@ + message_frame(
                magic_numbers@,
                Self::spec_command(),
                payload.io_bytes(),
            ));
        }
        Ok(())
    }

    /// Reads the payload the given frame header announces. It is accepted
    /// exactly when its bytes are all there, decode as one whole payload,
    /// and carry the checksum the header promised; any refusal leaves the
    /// stream unchanged.
    fn deserialize_message(stream: &mut &[u8], message_header: MessageHeader) -> (r: Result<
        Self,
        ErrorSerialization,
    >)
        ensures
            (r is Ok <==> frame_accepts::<Self>(old(stream)@, message_header)),
            (r matches Ok(m) ==> {
                &&& Self::io_parse(old(stream)@.take(message_header.payload_size as int)) == Some(
                    (m.deep_view(), Seq::<u8>::empty()),
                )
                &&& final(stream)@ == old(stream)@.skip(message_header.payload_size as int)
            }),
            (r is Err ==> final(stream)@ == old(stream)@),
    {
        let saved: &[u8] = *stream;
        let buffer = match read_bytes(stream, message_header.payload_size as usize) {
            Some(buffer) => buffer,
            None => {
                return Err(ErrorSerialization::ErrorWhileReading);
            },
        };
        let mut cursor: &[u8] = buffer.as_slice();
        let message = match Self::io_deserialize(&mut cursor) {
            Ok(message) => message,
            Err(error) => {
                *stream = saved;
                return Err(error);
            },
        };
        if cursor.len() != 0 {
            *stream = saved;
            return Err(ErrorSerialization::ErrorInDeserialization(
                "the payload does not fill its declared length".to_string(),
            ));
        }
        let checksum = match hash256d_reduce(buffer.as_slice()) {
            Ok(checksum) => checksum,
            Err(error) => {
                *stream = saved;
                return Err(error);
            },
        };
        if !bytes_equal(checksum.as_slice(), message_header.checksum.as_slice()) {
            *stream = saved;
            return Err(ErrorSerialization::ErrorInDeserialization(
                "the checksum is not the payload's".to_string(),
            ));
        }
        proof {
            assert(cursor@ =~= Seq::<u8>::empty());
            assert(checksum@ =~= message_header.checksum@);
        }
        Ok(message)
    }
}

/// Reads exactly `count` bytes off the stream; fewer left is an error and
/// the stream stays unchanged.
pub fn read_exact(stream: &mut &[u8], count: usize) -> (r: Result<Vec<u8>, ErrorSerialization>)
    ensures
        (r matches Ok(v) ==> {
            &&& old(stream)@.len() >= count
            &&& v@ == old(stream)@.take(count as int)
            &&& final(stream)@ == old(stream)@.skip(count as int)
        }),
        (r is Err ==> old(stream)@.len() < count && final(stream)@ == old(stream)@),
{
    match read_bytes(stream, count) {
        Some(buffer) => Ok(buffer),
        None => Err(ErrorSerialization::ErrorWhileReading),
    }
}

/// Reads and drops one message of type `M` that the given header announces.
pub fn ignore_message<M: Message>(stream: &mut &[u8], header: MessageHeader) -> (r: Result<
    (),
    ErrorSerialization,
>)
    ensures
        (r is Ok <==> frame_accepts::<M>(old(stream)@, header)),
        r is Ok ==> final(stream)@ == old(stream)@.skip(header.payload_size as int),
        r is Err ==> final(stream)@ == old(stream)@,
{
    match M::deserialize_message(stream, header) {
        Ok(_) => Ok(()),
        Err(error) => Err(error),
    }
}

/// The pong frame owed for a skipped ping.
pub open spec fn pong_frame(magic_numbers: Seq<u8>, nonce: u64) -> Seq<u8> {
    message_frame(magic_numbers, CommandName::Pong, le_bytes_of(nonce as nat, 8))
}

/// What scanning the stream for a command finds: the first frame whose
/// command is the searched one — its header, the stream just past that
/// header, and the pong frames owed for the pings drained on the way.
/// `None` when a frame fails to parse, a drained ping is unacceptable, or
/// the frames run out first.
pub open spec fn scan_for_command(data: Seq<u8>, search_name: CommandName) -> Option<
    (super::message_header::MessageHeaderView, Seq<u8>, Seq<u8>),
>
    decreases data.len(),
        via scan_for_command_decreases
{
    match MessageHeader::io_parse(data) {
        Some((header, rest)) => {
            if header.command_name == search_name {
                Some((header, rest, Seq::empty()))
            } else if header.command_name == CommandName::Ping {
                if frame_accepts_at::<super::ping_message::PingMessage>(
                    rest,
                    header.payload_size,
                    header.checksum,
                ) {
                    let nonce = super::ping_message::PingMessage::io_parse(
                        rest.take(header.payload_size as int),
                    ).unwrap().0.nonce;
                    match scan_for_command(rest.skip(header.payload_size as int), search_name) {
                        Some((found, tail, pongs)) => Some(
                            (found, tail, pong_frame(header.magic_numbers, nonce) + pongs),
                        ),
                        None => None,
                    }
                } else {
                    None
                }
            } else {
                if rest.len() >= header.payload_size {
                    scan_for_command(rest.skip(header.payload_size as int), search_name)
                } else {
                    None
                }
            }
        },
        None => None,
    }
}

#[via_fn]
proof fn scan_for_command_decreases(data: Seq<u8>, search_name: CommandName) {
    super::message_header::lemma_header_parse_consumes(data);
}

/// Skips messages until one with the wanted command arrives, answering pings
/// on the way with pongs carrying the same nonce, and returns that message's
/// frame header; its payload is left on the stream.
pub fn deserialize_until_found(stream: &mut &[u8], output: &mut Vec<u8>, search_name: CommandName)
    -> (r: Result<MessageHeader, ErrorSerialization>)
    ensures
        (r is Ok <==> scan_for_command(old(stream)@, search_name) is Some),
        (r matches Ok(h) ==> {
            &&& scan_for_command(old(stream)@, search_name) matches Some((found, tail, pongs))
                && found == h.deep_view() && final(stream)@ == tail && final(output)@ == old(
                output,
            )@ + pongs
            &&& h.command_name == search_name
        }),
{
    let ghost mut written: Seq<u8> = Seq::empty();
    proof {
        assert(output@ =~= old(output)@ + written);
    }
    loop
        invariant
            output@ == old(output)@ + written,
            scan_for_command(old(stream)@, search_name) == (match scan_for_command(
                stream@,
                search_name,
            ) {
                Some((found, tail, pongs)) => Some::<
                    (super::message_header::MessageHeaderView, Seq<u8>, Seq<u8>),
                >((found, tail, written + pongs)),
                None => None::<(super::message_header::MessageHeaderView, Seq<u8>, Seq<u8>)>,
            }),
        decreases stream@.len(),
    {
        let ghost before = stream@;
        let header = match MessageHeader::deserialize_header(stream) {
            Ok(header) => header,
            Err(error) => {
                return Err(error);
            },
        };
        proof {
            super::message_header::lemma_header_parse_consumes(before);
            assert(stream@.len() < before.len());
            assert(header.deep_view().command_name == header.command_name);
        }
        if matches!(header.command_name, CommandName::Ping) && !matches!(
            search_name,
            CommandName::Ping,
        ) {
            let ghost rest = stream@;
            let ping = match super::ping_message::PingMessage::deserialize_message(
                stream,
                header,
            ) {
                Ok(ping) => ping,
                Err(error) => {
                    proof {
                        assert(!frame_accepts_at::<super::ping_message::PingMessage>(
                            rest,
                            header.payload_size,
                            header.checksum@,
                        ));
                        assert(scan_for_command(before, search_name) is None);
                    }
                    return Err(error);
                },
            };
            proof {
                assert(super::ping_message::PingMessage::io_parse(
                    rest.take(header.payload_size as int),
                ).unwrap().0.nonce == ping.nonce);
            }
            let pong = super::pong_message::PongMessage { nonce: ping.nonce };
            let ghost output_before = output@;
            let outcome = super::pong_message::PongMessage::serialize_message(
                output,
                header.magic_numbers,
                &pong,
            );
            proof {
                crate::serialization::encoding::lemma_le_bytes_of_len(pong.nonce as nat, 8);
                assert(outcome is Ok);
                assert(output@ == output_before + pong_frame(
                    header.magic_numbers@,
                    ping.nonce,
                ));
                let step = pong_frame(header.magic_numbers@, ping.nonce);
                match scan_for_command(stream@, search_name) {
                    Some((found, tail, pongs)) => {
                        assert(written + (step + pongs) =~= (written + step) + pongs);
                    },
                    None => {},
                }
                written = written + step;
                assert(output@ =~= old(output)@ + written);
            }
        } else if command_names_equal(header.command_name, search_name) {
            proof {
                assert(scan_for_command(before, search_name) == Some(
                    (header.deep_view(), stream@, Seq::<u8>::empty()),
                ));
                assert(written + Seq::<u8>::empty() =~= written);
                assert(output@ =~= old(output)@ + written);
            }
            return Ok(header);
        } else {
            let ghost rest = stream@;
            match read_exact(stream, header.payload_size as usize) {
                Ok(_) => {
                    proof {
                        assert(rest.len() >= header.payload_size);
                        assert(stream@ =~= rest.skip(header.payload_size as int));
                    }
                },
                Err(error) => {
                    proof {
                        assert(rest.len() < header.payload_size);
                        assert(scan_for_command(before, search_name) is None);
                    }
                    return Err(error);
                },
            }
        }
    }
}

/// What fetching `count` blocks off the stream yields: their views in
/// arrival order, the stream past the last one, and the pong frames owed for
/// pings drained on the way. `None` when a frame breaks, a block frame is
/// unacceptable, or the stream runs out first.
pub open spec fn blocks_fetched(data: Seq<u8>, count: nat) -> Option<
    (Seq<crate::block_structure::block::BlockView>, Seq<u8>, Seq<u8>),
>
    decreases count,
{
    if count == 0 {
        Some((Seq::empty(), data, Seq::empty()))
    } else {
        match scan_for_command(data, CommandName::Block) {
            Some((header, rest, pongs)) => {
                if frame_accepts_at::<super::block_message::BlockMessage>(
                    rest,
                    header.payload_size,
                    header.checksum,
                ) {
                    let block = super::block_message::BlockMessage::io_parse(
                        rest.take(header.payload_size as int),
                    ).unwrap().0.block;
                    match blocks_fetched(rest.skip(header.payload_size as int), (count - 1) as nat) {
                        Some((more, tail, later_pongs)) => Some(
                            (seq![block] + more, tail, pongs + later_pongs),
                        ),
                        None => None,
                    }
                } else {
                    None
                }
            },
            None => None,
        }
    }
}

/// Whether two command names are the same command.
pub fn command_names_equal(left: CommandName, right: CommandName) -> (r: bool)
    ensures
        r == (left == right),
{
    left == right
}

} // verus!
