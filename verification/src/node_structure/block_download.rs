use vstd::prelude::*;

use super::error_node::ErrorNode;
use crate::block_structure::block::Block;
use crate::block_structure::hash::HashType;
use crate::logs::logger_sender::LoggerSender;
use crate::serialization::serializable_internal_order::SerializableInternalOrder;



verus! {

/// The block-fetch side of the download: ask for blocks by header hash and
/// read them back in order.
#[derive(Clone)]
pub struct BlockDownload {
    pub sender_log: LoggerSender,
}

impl BlockDownload {
    pub fn new(sender_log: LoggerSender) -> (r: BlockDownload) {
        BlockDownload { sender_log }
    }

    /// Asks for the blocks behind the given header hashes and reads them
    /// back in arrival order, answering pings on the way; over fifty
    /// thousand at once is refused with nothing sent.
    pub fn get_data(&self, input: &mut &[u8], output: &mut Vec<u8>, hashed_headers: Vec<HashType>)
        -> (r: Result<Vec<Block>, ErrorNode>)
        ensures
            (hashed_headers@.len() >= 50000 ==> r == Err::<Vec<Block>, ErrorNode>(
                ErrorNode::RequestedDataTooBig,
            ) && final(output)@ == old(output)@),
            (hashed_headers@.len() < 50000 ==> (r is Ok
                <==> crate::messages::message::blocks_fetched(
                old(input)@,
                hashed_headers@.len() as nat,
            ) is Some)),
            (hashed_headers@.len() < 50000 && r is Err ==> (r matches Err(e)
                && e is NodeNotResponding)),
            (r matches Ok(blocks) ==> {
                &&& blocks@.len() == hashed_headers@.len()
                &&& (forall|k: int| 0 <= k < blocks@.len() ==> (#[trigger] blocks@[k]).io_wf())
                &&& exists|request: crate::messages::get_data_message::GetDataMessage|
                    {
                        &&& #[trigger] request.inventory_vectors@.len() == hashed_headers@.len()
                        &&& (forall|k: int|
                            0 <= k < hashed_headers@.len() ==> (#[trigger] request.inventory_vectors@[
                            k]).type_identifier
                                == crate::connections::type_identifier::TypeIdentifier::Block
                                && request.inventory_vectors@[k].hash == hashed_headers@[k])
                        &&& (match crate::messages::message::blocks_fetched(
                            old(input)@,
                            hashed_headers@.len() as nat,
                        ) {
                            Some((views, tail, pongs)) => blocks.deep_view() == views
                                && final(input)@ == tail && final(output)@ == old(output)@
                                + crate::messages::message::message_frame(
                                seq![0x0bu8, 0x11u8, 0x09u8, 0x07u8],
                                crate::messages::command_name::CommandName::GetData,
                                request.io_bytes(),
                            ) + pongs,
                            None => false,
                        })
                    }
            }),
    {
        let download = super::initial_block_download::InitialBlockDownload::new(
            crate::connections::p2p_protocol::ProtocolVersionP2P::V70015,
            self.sender_log.clone(),
        );
        download.get_data(input, output, hashed_headers)
    }
}

} // verus!
