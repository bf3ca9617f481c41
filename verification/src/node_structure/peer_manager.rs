use vstd::prelude::*;

use super::connection_id::ConnectionId;
use super::message_response::MessageResponse;
use crate::messages::block_message::BlockMessage;
use crate::messages::command_name::CommandName;
use crate::messages::message::{frame_accepts_at, pong_frame, read_exact, Message};
use crate::messages::message_header::MessageHeader;
use crate::messages::ping_message::PingMessage;
use crate::messages::pong_message::PongMessage;
use crate::messages::tx_message::TxMessage;
use crate::serialization::deserializable_internal_order::DeserializableInternalOrder;
use crate::serialization::error_serialization::ErrorSerialization;

verus! {

/// One step of a peer's read loop: reads the next frame off `input` and
/// decides what the loop does with it. A block or a transaction comes back
/// tagged with the connection it arrived through, for the chain updater; a
/// ping is answered inline with a pong into `output`; any other command is
/// drained and dropped. A broken frame is an error, on which the caller
/// marks the peer dead.
pub fn handle_next_message(input: &mut &[u8], output: &mut Vec<u8>, connection: ConnectionId) -> (r:
    Result<Option<MessageResponse>, ErrorSerialization>)
    ensures
        (match MessageHeader::io_parse(old(input)@) {
            Some((header, rest)) => {
                if header.command_name == CommandName::Block {
                    &&& (r is Ok <==> frame_accepts_at::<BlockMessage>(
                        rest,
                        header.payload_size,
                        header.checksum,
                    ))
                    &&& (r matches Ok(d) ==> {
                        &&& (d matches Some(response) ==> (response matches MessageResponse::Block(
                            block,
                            from,
                        ) && block.deep_view() == BlockMessage::io_parse(
                            rest.take(header.payload_size as int),
                        ).unwrap().0.block && from == connection))
                        &&& d is Some
                        &&& final(input)@ == rest.skip(header.payload_size as int)
                        &&& final(output)@ == old(output)@
                    })
                } else if header.command_name == CommandName::Tx {
                    &&& (r is Ok <==> frame_accepts_at::<TxMessage>(
                        rest,
                        header.payload_size,
                        header.checksum,
                    ))
                    &&& (r matches Ok(d) ==> {
                        &&& (d matches Some(response) ==> (
                        response matches MessageResponse::Transaction(transaction, from)
                            && transaction.deep_view() == TxMessage::io_parse(
                            rest.take(header.payload_size as int),
                        ).unwrap().0.transaction && from == connection))
                        &&& d is Some
                        &&& final(input)@ == rest.skip(header.payload_size as int)
                        &&& final(output)@ == old(output)@
                    })
                } else if header.command_name == CommandName::Ping {
                    &&& (r is Ok <==> frame_accepts_at::<PingMessage>(
                        rest,
                        header.payload_size,
                        header.checksum,
                    ))
                    &&& (r matches Ok(d) ==> {
                        &&& d is None
                        &&& final(input)@ == rest.skip(header.payload_size as int)
                        &&& final(output)@ == old(output)@ + pong_frame(
                            header.magic_numbers,
                            PingMessage::io_parse(
                                rest.take(header.payload_size as int),
                            ).unwrap().0.nonce,
                        )
                    })
                } else {
                    &&& (r is Ok <==> rest.len() >= header.payload_size)
                    &&& (r matches Ok(d) ==> {
                        &&& d is None
                        &&& final(input)@ == rest.skip(header.payload_size as int)
                        &&& final(output)@ == old(output)@
                    })
                }
            },
            None => r is Err && final(input)@ == old(input)@ && final(output)@ == old(output)@,
        }),
{
    let header = match MessageHeader::deserialize_header(input) {
        Ok(header) => header,
        Err(error) => {
            return Err(error);
        },
    };
    proof {
        assert(header.deep_view().command_name == header.command_name);
        assert(header.deep_view().magic_numbers == header.magic_numbers@);
        assert(header.deep_view().payload_size == header.payload_size);
        assert(header.deep_view().checksum == header.checksum@);
    }
    if matches!(header.command_name, CommandName::Block) {
        let message = match BlockMessage::deserialize_message(input, header) {
            Ok(message) => message,
            Err(error) => {
                return Err(error);
            },
        };
        Ok(Some(MessageResponse::Block(message.block, connection)))
    } else if matches!(header.command_name, CommandName::Tx) {
        let message = match TxMessage::deserialize_message(input, header) {
            Ok(message) => message,
            Err(error) => {
                return Err(error);
            },
        };
        Ok(Some(MessageResponse::Transaction(message.transaction, connection)))
    } else if matches!(header.command_name, CommandName::Ping) {
        let ghost rest = input@;
        let ping = match PingMessage::deserialize_message(input, header) {
            Ok(ping) => ping,
            Err(error) => {
                return Err(error);
            },
        };
        proof {
            assert(PingMessage::io_parse(rest.take(header.payload_size as int)).unwrap().0.nonce
                == ping.nonce);
        }
        let pong = PongMessage { nonce: ping.nonce };
        let ghost output_before = output@;
        let outcome = PongMessage::serialize_message(output, header.magic_numbers, &pong);
        proof {
            crate::serialization::encoding::lemma_le_bytes_of_len(pong.nonce as nat, 8);
            assert(outcome is Ok);
            assert(output@ == output_before + pong_frame(header.magic_numbers@, ping.nonce));
        }
        Ok(None)
    } else {
        match read_exact(input, header.payload_size as usize) {
            Ok(_) => Ok(None),
            Err(error) => Err(error),
        }
    }
}

} // verus!
