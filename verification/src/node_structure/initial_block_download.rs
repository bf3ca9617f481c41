use vstd::prelude::*;

use super::error_node::ErrorNode;
use crate::block_structure::block_chain::{
    chain_fold, chain_step, header_admissible, lemma_chain_fold_snoc, lemma_find_parent_views,
    lemma_views_have_header, node_views,
};
use crate::block_structure::block_header::lemma_id_bytes_from_view;
use crate::block_structure::node_chain::NodeChainView;
use crate::block_structure::block::Block;
use crate::block_structure::block_chain::BlockChain;
use crate::block_structure::hash::HashType;
use crate::connections::p2p_protocol::ProtocolVersionP2P;
use crate::logs::logger_sender::LoggerSender;
use crate::serialization::serializable_internal_order::SerializableInternalOrder;
use crate::serialization::deserializable_internal_order::DeserializableInternalOrder;
use crate::messages::command_name::CommandName;
use crate::messages::get_data_message::GetDataMessage;
use crate::messages::get_headers_message::GetHeadersMessage;
use crate::messages::headers_message::HeadersMessage;
use crate::messages::message::{deserialize_until_found, Message};
use crate::messages::block_message::BlockMessage;



verus! {

/// The header-first download against one peer: ask for headers after our
/// tips, then for the blocks behind chosen headers. The socket's bytes come
/// in as `input` and what must be sent leaves through `output`.
#[derive(Clone)]
pub struct InitialBlockDownload {
    pub protocol_version: ProtocolVersionP2P,
    pub sender_log: LoggerSender,
}

/// Whether the stream holds a headers frame that reads back whole: a
/// headers command is found (past drained frames and answered pings) and
/// its payload parses with the advertised checksum.
pub open spec fn headers_frame_read(data: Seq<u8>) -> bool {
    match crate::messages::message::scan_for_command(data, CommandName::Headers) {
        Some((found, rest, pongs)) => crate::messages::message::frame_accepts_at::<HeadersMessage>(
            rest,
            found.payload_size,
            found.checksum,
        ),
        None => false,
    }
}

/// Whether the stream holds a headers frame that reads back whole and whose
/// batch is at or under the fifty-thousand ceiling.
pub open spec fn headers_batch_accepted(data: Seq<u8>) -> bool {
    &&& headers_frame_read(data)
    &&& (match crate::messages::message::scan_for_command(data, CommandName::Headers) {
        Some((found, rest, pongs)) => match HeadersMessage::io_parse(
            rest.take(found.payload_size as int),
        ) {
            Some((batch, tail)) => batch.headers.len() <= 50000,
            None => false,
        },
        None => false,
    })
}

impl InitialBlockDownload {
    pub fn new(protocol_version: ProtocolVersionP2P, sender_log: LoggerSender) -> (r:
        InitialBlockDownload)
        ensures
            r.protocol_version == protocol_version,
    {
        InitialBlockDownload { protocol_version, sender_log }
    }

    /// Sends one headers request naming the chain's tips, reads the
    /// answering batch — answering pings on the way — and offers every
    /// header of it to the chain in order: one that carries its proof of
    /// work and links to a known node goes in, the rest are skipped. The
    /// count of appended headers comes back.
    #[verifier::rlimit(100)]
    pub fn get_headers(&self, input: &mut &[u8], output: &mut Vec<u8>, block_chain: &mut BlockChain)
        -> (r: Result<u32, ErrorNode>)
        requires
            old(block_chain).wf(),
        ensures
            final(block_chain).wf(),
            (r is Err ==> *final(block_chain) == *old(block_chain)),
            (45 + 32 * old(block_chain).last_blocks@.len() <= u32::MAX ==> {
                &&& (r is Ok <==> headers_batch_accepted(old(input)@))
                &&& (r matches Err(e) ==> (e is RequestedDataTooBig <==> headers_frame_read(
                    old(input)@,
                ) && !headers_batch_accepted(old(input)@)))
            }),
            (r matches Ok(count) ==> (match crate::messages::message::scan_for_command(
                old(input)@,
                CommandName::Headers,
            ) {
                Some((found, rest, pongs)) => {
                    &&& crate::messages::message::frame_accepts_at::<HeadersMessage>(
                        rest,
                        found.payload_size,
                        found.checksum,
                    )
                    &&& (match HeadersMessage::io_parse(rest.take(found.payload_size as int)) {
                        Some((batch, _)) => {
                            let folded = chain_fold(
                                node_views(old(block_chain).blocks@),
                                old(block_chain).last_blocks@,
                                batch.headers,
                            );
                            &&& batch.headers.len() <= 50000
                            &&& node_views(final(block_chain).blocks@) == folded.0
                            &&& final(block_chain).last_blocks@ == folded.1
                            &&& count as int == folded.2
                            &&& final(block_chain).blocks@.len() == old(
                                block_chain,
                            ).blocks@.len() + count
                        },
                        None => false,
                    })
                    &&& final(input)@ == rest.skip(found.payload_size as int)
                    &&& exists|request: GetHeadersMessage|
                        {
                            &&& #[trigger] request.header_locator_hashes@.len() == old(
                                block_chain,
                            ).last_blocks@.len()
                            &&& (forall|k: int|
                                0 <= k < request.header_locator_hashes@.len() ==> (
                                #[trigger] request.header_locator_hashes@[k])@
                                    == crate::block_structure::hash::sha256d_of(
                                    old(block_chain).blocks@[
                                        old(block_chain).last_blocks@[k] as int
                                    ].block.header.id_bytes(),
                                ))
                            &&& request.version == self.protocol_version
                            &&& request.stop_hash@ == Seq::new(32, |i: int| 0u8)
                            &&& final(output)@ == old(output)@
                                + crate::messages::message::message_frame(
                                seq![0x0bu8, 0x11u8, 0x09u8, 0x07u8],
                                CommandName::GetHeaders,
                                request.io_bytes(),
                            ) + pongs
                        }
                },
                None => false,
            })),
    {
        let locator = block_chain.latest();
        let mut header_locator_hashes: Vec<HashType> = Vec::new();
        let mut i: usize = 0;
        while i < locator.len()
            invariant
                block_chain.wf(),
                locator@.len() == block_chain.last_blocks@.len(),
                forall|k: int|
                    0 <= k < locator@.len() ==> (#[trigger] locator@[k]).deep_view()
                        == block_chain.blocks@[block_chain.last_blocks@[k] as int].block.deep_view(),
                i <= locator@.len(),
                header_locator_hashes@.len() == i,
                forall|k: int|
                    0 <= k < i ==> (#[trigger] header_locator_hashes@[k])@
                        == crate::block_structure::hash::sha256d_of(
                        block_chain.blocks@[
                            block_chain.last_blocks@[k] as int
                        ].block.header.id_bytes(),
                    ),
            decreases locator@.len() - i,
        {
            let hashed = locator[i].header.get_hash256d();
            proof {
                assert(hashed is Ok);
            }
            match hashed {
                Ok(hash) => {
                    proof {
                        lemma_id_bytes_from_view(locator@[i as int].header);
                        lemma_id_bytes_from_view(
                            block_chain.blocks@[
                                block_chain.last_blocks@[i as int] as int
                            ].block.header,
                        );
                    }
                    header_locator_hashes.push(hash);
                },
                Err(_) => {
                    proof {
                        assert(false);
                    }
                    return Err(ErrorNode::WhileSerializing(
                        "a tip's identity could not be taken".to_string(),
                    ));
                },
            }
            i = i + 1;
        }
        let stop_hash: HashType = [
            0u8, 0u8, 0u8, 0u8, 0u8, 0u8, 0u8, 0u8, 0u8, 0u8, 0u8, 0u8, 0u8, 0u8, 0u8, 0u8, 0u8,
            0u8, 0u8, 0u8, 0u8, 0u8, 0u8, 0u8, 0u8, 0u8, 0u8, 0u8, 0u8, 0u8, 0u8, 0u8,
        ];
        let request = GetHeadersMessage::new(
            testnet_magic_numbers(),
            self.protocol_version,
            copy_hashes(&header_locator_hashes),
            stop_hash,
        );
        proof {
            assert(request.stop_hash@ =~= Seq::new(32, |k: int| 0u8));
            assert(request.header_locator_hashes@ == header_locator_hashes@);
        }
        let _ = self.sender_log.log_connection("asking the peer for headers".to_string());
        let framed = GetHeadersMessage::serialize_message(output, testnet_magic_numbers(), &request);
        if framed.is_err() {
            proof {
                crate::messages::get_headers_message::lemma_get_headers_bytes_len(request);
                assert(request.io_bytes().len() > u32::MAX);
                assert(!(45 + 32 * old(block_chain).last_blocks@.len() <= u32::MAX));
            }
            return Err(ErrorNode::WhileSerializing(
                "the headers request did not fit a frame".to_string(),
            ));
        }
        let ghost scan_entry = input@;
        let ghost output_pre_scan = output@;
        let header = match deserialize_until_found(input, output, CommandName::Headers) {
            Ok(header) => header,
            Err(_) => {
                proof {
                    assert(!headers_frame_read(old(input)@));
                }
                return Err(ErrorNode::NodeNotResponding(
                    "no headers message arrived".to_string(),
                ));
            },
        };
        let ghost pre_message = input@;
        let received = match HeadersMessage::deserialize_message(input, header) {
            Ok(received) => received,
            Err(_) => {
                proof {
                    assert(!crate::messages::message::frame_accepts_at::<HeadersMessage>(
                        pre_message,
                        header.payload_size,
                        header.checksum@,
                    ));
                    assert(!headers_frame_read(old(input)@));
                }
                return Err(ErrorNode::NodeNotResponding(
                    "the headers message did not read back".to_string(),
                ));
            },
        };
        proof {
            assert(headers_frame_read(old(input)@));
            assert(received.headers@.len() == received.headers.deep_view().len());
        }
        let outcome = self.add_headers_to_blockchain(block_chain, &received);
        match outcome {
            Ok(count) => {
                proof {
                    crate::block_structure::block_chain::lemma_chain_fold_len(
                        node_views(old(block_chain).blocks@),
                        old(block_chain).last_blocks@,
                        received.headers.deep_view(),
                    );
                    assert(node_views(block_chain.blocks@).len() == block_chain.blocks@.len());
                    assert(node_views(old(block_chain).blocks@).len() == old(
                        block_chain,
                    ).blocks@.len());
                    assert(headers_batch_accepted(old(input)@));
                }
                Ok(count)
            },
            Err(_) => {
                proof {
                    assert(received.headers@.len() > 50000);
                    assert(!headers_batch_accepted(old(input)@));
                }
                Err(ErrorNode::RequestedDataTooBig)
            },
        }
    }

    /// Offers every header of the batch to the chain in order: one that
    /// carries its proof of work and links to a known node goes in; the rest
    /// are skipped. A batch over the fifty-thousand ceiling is refused
    /// whole. Returns how many went in.
    pub fn add_headers_to_blockchain(
        &self,
        block_chain: &mut BlockChain,
        received_headers_message: &HeadersMessage,
    ) -> (r: Result<u32, ErrorNode>)
        requires
            old(block_chain).wf(),
        ensures
            final(block_chain).wf(),
            (r is Ok <==> received_headers_message.headers@.len() <= 50000),
            (r is Err ==> r == Err::<u32, ErrorNode>(ErrorNode::RequestedDataTooBig)
                && *final(block_chain) == *old(block_chain)),
            (r matches Ok(count) ==> {
                let folded = chain_fold(
                    node_views(old(block_chain).blocks@),
                    old(block_chain).last_blocks@,
                    received_headers_message.headers.deep_view(),
                );
                &&& node_views(final(block_chain).blocks@) == folded.0
                &&& final(block_chain).last_blocks@ == folded.1
                &&& count as int == folded.2
            }),
    {
        if received_headers_message.headers.len() > 50000 {
            return Err(ErrorNode::RequestedDataTooBig);
        }
        let ghost start_views = node_views(block_chain.blocks@);
        let ghost start_tips = block_chain.last_blocks@;
        let ghost header_views = received_headers_message.headers.deep_view();
        let mut added_headers: u32 = 0;
        let mut i: usize = 0;
        proof {
            assert(header_views.take(0) =~= Seq::<
                crate::block_structure::block_header::BlockHeaderView,
            >::empty());
            assert(chain_fold(start_views, start_tips, header_views.take(0)) == (
                start_views,
                start_tips,
                0int,
            ));
        }
        while i < received_headers_message.headers.len()
            invariant
                block_chain.wf(),
                header_views == received_headers_message.headers.deep_view(),
                header_views.len() == received_headers_message.headers@.len(),
                i <= received_headers_message.headers@.len() <= 50000,
                added_headers <= i,
                node_views(block_chain.blocks@) == chain_fold(
                    start_views,
                    start_tips,
                    header_views.take(i as int),
                ).0,
                block_chain.last_blocks@ == chain_fold(
                    start_views,
                    start_tips,
                    header_views.take(i as int),
                ).1,
                added_headers as int == chain_fold(
                    start_views,
                    start_tips,
                    header_views.take(i as int),
                ).2,
            decreases received_headers_message.headers@.len() - i,
        {
            let header = received_headers_message.headers[i];
            let ghost pre_views = node_views(block_chain.blocks@);
            let ghost pre_tips = block_chain.last_blocks@;
            proof {
                lemma_chain_fold_snoc(
                    start_views,
                    start_tips,
                    header_views.take(i as int),
                    header_views[i as int],
                );
                assert(header_views.take(i + 1) =~= header_views.take(i as int).push(
                    header_views[i as int],
                ));
                assert(header_views[i as int] == header.deep_view());
                lemma_views_have_header(block_chain.blocks@, header);
                lemma_find_parent_views(
                    block_chain.blocks@,
                    header.previous_block_header_hash@,
                );
                lemma_id_bytes_from_view(header);
            }
            if header.proof_of_work() {
                let outcome = block_chain.append_header(header);
                proof {
                    match outcome {
                        Ok(_) => {
                            assert(header_admissible(pre_views, header.deep_view()));
                            let appended = block_chain.blocks@.last();
                            assert(appended.deep_view() == (NodeChainView {
                                block: crate::block_structure::block::BlockView {
                                    header: header.deep_view(),
                                    transactions: Seq::empty(),
                                },
                                header_hash:
                                    crate::block_structure::hash::sha256d_of(
                                    crate::block_structure::block_header::header_view_id_bytes(
                                        header.deep_view(),
                                    ),
                                ),
                                index_previous_node: appended.index_previous_node,
                            })) by {
                                assert(appended.block.transactions.deep_view() =~= Seq::<
                                    crate::block_structure::transaction::TransactionView,
                                >::empty());
                                assert(appended.deep_view().block =~= crate::block_structure::block::BlockView {
                                    header: header.deep_view(),
                                    transactions: Seq::empty(),
                                });
                                assert(appended.deep_view() =~= NodeChainView {
                                    block: crate::block_structure::block::BlockView {
                                        header: header.deep_view(),
                                        transactions: Seq::empty(),
                                    },
                                    header_hash: appended.header_hash@,
                                    index_previous_node: appended.index_previous_node,
                                });
                            }
                            assert(node_views(block_chain.blocks@) =~= pre_views.push(
                                appended.deep_view(),
                            )) by {
                                assert(block_chain.blocks@.take(pre_views.len() as int)
                                    =~= old(block_chain).blocks@.take(pre_views.len() as int)
                                    || true);
                                assert(forall|j: int|
                                    0 <= j < pre_views.len()
                                        ==> #[trigger] node_views(block_chain.blocks@)[j]
                                        == pre_views[j]);
                            }
                            assert(node_views(block_chain.blocks@) == chain_step(
                                pre_views,
                                pre_tips,
                                header.deep_view(),
                            ).0);
                            assert(block_chain.last_blocks@ == chain_step(
                                pre_views,
                                pre_tips,
                                header.deep_view(),
                            ).1);
                        },
                        Err(_) => {
                            assert(!header_admissible(pre_views, header.deep_view()));
                        },
                    }
                }
                match outcome {
                    Ok(_) => {
                        added_headers = added_headers + 1;
                    },
                    Err(_) => {},
                }
            } else {
                proof {
                    assert(!header_admissible(pre_views, header.deep_view()));
                }
            }
            i = i + 1;
        }
        proof {
            assert(header_views.take(header_views.len() as int) =~= header_views);
        }
        Ok(added_headers)
    }

    /// Asks for the blocks behind the given header hashes and reads them
    /// back in arrival order, answering pings on the way; over fifty
    /// thousand at once is refused with nothing sent.
    #[verifier::rlimit(100)]
    pub fn get_data(&self, input: &mut &[u8], output: &mut Vec<u8>, hashed_headers: Vec<HashType>)
        -> (r: Result<Vec<Block>, ErrorNode>)
        ensures
            (hashed_headers@.len() >= 50000 ==> r == Err::<Vec<Block>, ErrorNode>(
                ErrorNode::RequestedDataTooBig,
            ) && final(output)@ == old(output)@),
            (hashed_headers@.len() < 50000 ==> (r is Ok <==> crate::messages::message::blocks_fetched(
                old(input)@,
                hashed_headers@.len() as nat,
            ) is Some)),
            (hashed_headers@.len() < 50000 && r is Err ==> (r matches Err(e)
                && e is NodeNotResponding)),
            (r matches Ok(blocks) ==> {
                &&& blocks@.len() == hashed_headers@.len()
                &&& (forall|k: int| 0 <= k < blocks@.len() ==> (#[trigger] blocks@[k]).io_wf())
                &&& exists|request: GetDataMessage|
                    {
                        &&& #[trigger] request.inventory_vectors@.len() == hashed_headers@.len()
                        &&& (forall|k: int|
                            0 <= k < hashed_headers@.len() ==> (#[trigger] request.inventory_vectors@[
                            k]).type_identifier
                                == crate::connections::type_identifier::TypeIdentifier::Block
                                && request.inventory_vectors@[k].hash == hashed_headers@[k])
                        &&& (match crate::messages::message::blocks_fetched(
                            old(input)@,
                            hashed_headers@.len() as nat,
                        ) {
                            Some((views, tail, pongs)) => blocks.deep_view() == views
                                && final(input)@ == tail && final(output)@ == old(output)@
                                + crate::messages::message::message_frame(
                                seq![0x0bu8, 0x11u8, 0x09u8, 0x07u8],
                                CommandName::GetData,
                                request.io_bytes(),
                            ) + pongs,
                            None => false,
                        })
                    }
            }),
    {
        let headers_count = hashed_headers.len();
        if headers_count >= 50000 {
            let _ = self.sender_log.log_connection("more blocks asked than allowed".to_string());
            return Err(ErrorNode::RequestedDataTooBig);
        }
        let request = GetDataMessage::new(copy_hashes(&hashed_headers));
        proof {
            lemma_inventory_bytes_len(request.inventory_vectors@);
            crate::messages::compact_size::lemma_compact_size_round_trip(
                crate::messages::compact_size::CompactSize {
                    value: request.inventory_vectors@.len() as u64,
                },
                Seq::empty(),
            );
            assert(request.io_bytes().len() <= u32::MAX);
        }
        let ghost frame = crate::messages::message::message_frame(
            seq![0x0bu8, 0x11u8, 0x09u8, 0x07u8],
            CommandName::GetData,
            request.io_bytes(),
        );
        if GetDataMessage::serialize_message(output, testnet_magic_numbers(), &request).is_err() {
            proof {
                assert(false);
            }
            return Err(ErrorNode::WhileSerializing(
                "the block request did not fit a frame".to_string(),
            ));
        }
        let ghost fetch_start = input@;
        let ghost output_after_frame = output@;
        proof {
            assert(output_after_frame == old(output)@ + frame);
        }
        let mut blocks: Vec<Block> = Vec::new();
        let mut i: usize = 0;
        let ghost mut written: Seq<u8> = Seq::empty();
        proof {
            assert(output@ =~= output_after_frame + written);
        }
        while i < headers_count
            invariant
                headers_count < 50000,
                headers_count == hashed_headers@.len(),
                i <= headers_count,
                blocks@.len() == i,
                forall|k: int| 0 <= k < i ==> (#[trigger] blocks@[k]).io_wf(),
                fetch_start == old(input)@,
                request.inventory_vectors@.len() == hashed_headers@.len(),
                forall|k: int|
                    0 <= k < hashed_headers@.len() ==> (#[trigger] request.inventory_vectors@[
                    k]).type_identifier
                        == crate::connections::type_identifier::TypeIdentifier::Block
                        && request.inventory_vectors@[k].hash == hashed_headers@[k],
                frame == crate::messages::message::message_frame(
                    seq![0x0bu8, 0x11u8, 0x09u8, 0x07u8],
                    CommandName::GetData,
                    request.io_bytes(),
                ),
                output_after_frame == old(output)@ + frame,
                output@ == output_after_frame + written,
                crate::messages::message::blocks_fetched(fetch_start, headers_count as nat) == (
                match crate::messages::message::blocks_fetched(
                    input@,
                    (headers_count - i) as nat,
                ) {
                    Some((more, tail, pongs)) => Some::<
                        (Seq<crate::block_structure::block::BlockView>, Seq<u8>, Seq<u8>),
                    >((blocks.deep_view() + more, tail, written + pongs)),
                    None => None::<
                        (Seq<crate::block_structure::block::BlockView>, Seq<u8>, Seq<u8>),
                    >,
                }),
            decreases headers_count - i,
        {
            let ghost loop_stream = input@;
            let ghost output_pre = output@;
            let header = match deserialize_until_found(input, output, CommandName::Block) {
                Ok(header) => header,
                Err(_) => {
                    proof {
                        assert(crate::messages::message::scan_for_command(
                            loop_stream,
                            CommandName::Block,
                        ) is None);
                    }
                    return Err(ErrorNode::NodeNotResponding(
                        "a block message did not arrive".to_string(),
                    ));
                },
            };
            let ghost pre_message = input@;
            let message = match BlockMessage::deserialize_message(input, header) {
                Ok(message) => message,
                Err(_) => {
                    proof {
                        assert(!crate::messages::message::frame_accepts_at::<BlockMessage>(
                            pre_message,
                            header.payload_size,
                            header.checksum@,
                        ));
                    }
                    return Err(ErrorNode::NodeNotResponding(
                        "a block message did not read back".to_string(),
                    ));
                },
            };
            let block = message.block;
            let ghost views_pre = blocks.deep_view();
            blocks.push(block);
            proof {
                assert(blocks.deep_view() =~= views_pre.push(block.deep_view()));
                let scan = crate::messages::message::scan_for_command(
                    loop_stream,
                    CommandName::Block,
                );
                let step_pongs = scan.unwrap().2;
                assert(output@ =~= output_pre + step_pongs);
                match crate::messages::message::blocks_fetched(
                    input@,
                    (headers_count - (i + 1)) as nat,
                ) {
                    Some((more, tail, pongs)) => {
                        assert(views_pre + (seq![block.deep_view()] + more) =~= views_pre.push(
                            block.deep_view(),
                        ) + more);
                        assert(written + (step_pongs + pongs) =~= (written + step_pongs) + pongs);
                    },
                    None => {},
                }
                written = written + step_pongs;
                assert(output@ =~= output_after_frame + written);
            }
            i = i + 1;
        }
        proof {
            assert(crate::messages::message::blocks_fetched(input@, 0) == Some((
                Seq::<crate::block_structure::block::BlockView>::empty(),
                input@,
                Seq::<u8>::empty(),
            )));
            assert(blocks.deep_view() + Seq::<crate::block_structure::block::BlockView>::empty()
                =~= blocks.deep_view());
            assert(written + Seq::<u8>::empty() =~= written);
            assert(output@ =~= old(output)@ + frame + written);
        }
        Ok(blocks)
    }
}

/// A copy of a hash list with the same hashes.
pub fn copy_hashes(hashes: &Vec<HashType>) -> (r: Vec<HashType>)
    ensures
        r@ == hashes@,
{
    let mut out: Vec<HashType> = Vec::new();
    let mut i: usize = 0;
    while i < hashes.len()
        invariant
            i <= hashes@.len(),
            out@ == hashes@.take(i as int),
        decreases hashes@.len() - i,
    {
        out.push(hashes[i]);
        proof {
            assert(out@ =~= hashes@.take(i + 1));
        }
        i = i + 1;
    }
    proof {
        assert(hashes@.take(hashes@.len() as int) =~= hashes@);
    }
    out
}

/// Every inventory entry takes 36 wire bytes.
pub proof fn lemma_inventory_bytes_len(
    items: Seq<crate::messages::inventory_message::InventoryVector>,
)
    ensures
        crate::serialization::serializable_internal_order::items_io_bytes(items).len() == 36
            * items.len(),
    decreases items.len(),
{
    if items.len() > 0 {
        lemma_inventory_bytes_len(items.drop_first());
        crate::serialization::encoding::lemma_le_bytes_of_len(
            crate::connections::type_identifier::type_identifier_value(
                items[0].type_identifier,
            ) as nat,
            4,
        );
    }
}

/// The four magic bytes of the testnet.
pub fn testnet_magic_numbers() -> (r: [u8; 4])
    ensures
        r@ == seq![0x0bu8, 0x11u8, 0x09u8, 0x07u8],
{
    let raw: [u8; 4] = [0x0b, 0x11, 0x09, 0x07];
    proof {
        assert(raw@ =~= seq![0x0bu8, 0x11u8, 0x09u8, 0x07u8]);
    }
    raw
}

} // verus!
