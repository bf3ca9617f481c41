use vstd::prelude::*;

use super::error_node::ErrorNode;
use crate::block_structure::block_chain::{chain_fold, node_views};
use crate::block_structure::block_chain::BlockChain;
use crate::logs::logger_sender::LoggerSender;
use crate::messages::command_name::CommandName;
use crate::messages::headers_message::HeadersMessage;
use crate::messages::message::{deserialize_until_found, Message};
use crate::serialization::deserializable_internal_order::DeserializableInternalOrder;

verus! {

/// The steady-state listener for header announcements: read the next headers
/// batch and append what links into the chain.
#[derive(Clone)]
pub struct BlockBroadcasting {
    pub sender_log: LoggerSender,
}

impl BlockBroadcasting {
    pub fn new(sender_log: LoggerSender) -> (r: BlockBroadcasting) {
        BlockBroadcasting { sender_log }
    }

    /// Waits for the next headers message and appends every header that
    /// links into the chain, skipping the rest; the count of appended
    /// headers comes back.
    pub fn get_new_headers(
        &self,
        input: &mut &[u8],
        output: &mut Vec<u8>,
        block_chain: &mut BlockChain,
    ) -> (r: Result<u32, ErrorNode>)
        requires
            old(block_chain).wf(),
        ensures
            final(block_chain).wf(),
            (r is Ok <==> crate::node_structure::initial_block_download::headers_batch_accepted(
                old(input)@,
            )),
            (r matches Err(e) ==> (e is RequestedDataTooBig
                <==> crate::node_structure::initial_block_download::headers_frame_read(old(input)@)
                && !crate::node_structure::initial_block_download::headers_batch_accepted(
                old(input)@,
            ))),
            (r matches Ok(count) ==> (match crate::messages::message::scan_for_command(
                old(input)@,
                CommandName::Headers,
            ) {
                Some((found, rest, pongs)) => {
                    &&& crate::messages::message::frame_accepts_at::<HeadersMessage>(
                        rest,
                        found.payload_size,
                        found.checksum,
                    )
                    &&& (match HeadersMessage::io_parse(rest.take(found.payload_size as int)) {
                        Some((batch, _)) => {
                            let folded = chain_fold(
                                node_views(old(block_chain).blocks@),
                                old(block_chain).last_blocks@,
                                batch.headers,
                            );
                            &&& batch.headers.len() <= 50000
                            &&& node_views(final(block_chain).blocks@) == folded.0
                            &&& final(block_chain).last_blocks@ == folded.1
                            &&& count as int == folded.2
                            &&& final(block_chain).blocks@.len() == old(
                                block_chain,
                            ).blocks@.len() + count
                        },
                        None => false,
                    })
                    &&& final(input)@ == rest.skip(found.payload_size as int)
                    &&& final(output)@ == old(output)@ + pongs
                },
                None => false,
            })),
            (r is Err ==> *final(block_chain) == *old(block_chain)),
    {
        let header = match deserialize_until_found(input, output, CommandName::Headers) {
            Ok(header) => header,
            Err(_) => {
                proof {
                    assert(!crate::node_structure::initial_block_download::headers_frame_read(
                        old(input)@,
                    ));
                }
                return Err(ErrorNode::NodeNotResponding(
                    "no headers message arrived".to_string(),
                ));
            },
        };
        let ghost pre_message = input@;
        let received = match HeadersMessage::deserialize_message(input, header) {
            Ok(received) => received,
            Err(_) => {
                proof {
                    assert(!crate::messages::message::frame_accepts_at::<HeadersMessage>(
                        pre_message,
                        header.payload_size,
                        header.checksum@,
                    ));
                    assert(!crate::node_structure::initial_block_download::headers_frame_read(
                        old(input)@,
                    ));
                }
                return Err(ErrorNode::NodeNotResponding(
                    "the headers message did not read back".to_string(),
                ));
            },
        };
        proof {
            assert(crate::node_structure::initial_block_download::headers_frame_read(old(input)@));
            assert(received.headers@.len() == received.headers.deep_view().len());
        }
        let download = super::initial_block_download::InitialBlockDownload::new(
            crate::connections::p2p_protocol::ProtocolVersionP2P::V70015,
            self.sender_log.clone(),
        );
        let outcome = download.add_headers_to_blockchain(block_chain, &received);
        match outcome {
            Ok(count) => {
                proof {
                    crate::block_structure::block_chain::lemma_chain_fold_len(
                        node_views(old(block_chain).blocks@),
                        old(block_chain).last_blocks@,
                        received.headers.deep_view(),
                    );
                    assert(node_views(block_chain.blocks@).len() == block_chain.blocks@.len());
                    assert(crate::node_structure::initial_block_download::headers_batch_accepted(
                        old(input)@,
                    ));
                }
                Ok(count)
            },
            Err(_) => {
                proof {
                    assert(received.headers@.len() > 50000);
                    assert(!crate::node_structure::initial_block_download::headers_batch_accepted(
                        old(input)@,
                    ));
                }
                Err(ErrorNode::RequestedDataTooBig)
            },
        }
    }
}

} // verus!
