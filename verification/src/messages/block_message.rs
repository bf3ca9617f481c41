use vstd::prelude::*;

use super::command_name::CommandName;
use super::message::Message;
use crate::block_structure::block::{Block, BlockView};
use crate::serialization::deserializable_internal_order::DeserializableInternalOrder;
use crate::serialization::error_serialization::ErrorSerialization;
use crate::serialization::serializable_internal_order::SerializableInternalOrder;

verus! {

/// A whole block sent to a peer that asked for it.
#[derive(Debug, Clone)]
pub struct BlockMessage {
    pub block: Block,
}

/// The mathematical shape of a block message.
#[verifier::ext_equal]
pub ghost struct BlockMessageView {
    pub block: BlockView,
}

impl DeepView for BlockMessage {
    type V = BlockMessageView;

    open spec fn deep_view(&self) -> BlockMessageView {
        BlockMessageView { block: self.block.deep_view() }
    }
}

impl SerializableInternalOrder for BlockMessage {
    open spec fn io_bytes(&self) -> Seq<u8> {
        self.block.io_bytes()
    }

    open spec fn io_wf(&self) -> bool {
        self.block.io_wf()
    }

    fn io_serialize(&self, stream: &mut Vec<u8>) -> (r: Result<(), ErrorSerialization>) {
        self.block.io_serialize(stream)
    }
}

impl DeserializableInternalOrder for BlockMessage {
    open spec fn io_parse(data: Seq<u8>) -> Option<(BlockMessageView, Seq<u8>)> {
        match Block::io_parse(data) {
            Some((block, rest)) => Some((BlockMessageView { block }, rest)),
            None => None,
        }
    }

    fn io_deserialize(stream: &mut &[u8]) -> (r: Result<BlockMessage, ErrorSerialization>) {
        match Block::io_deserialize(stream) {
            Ok(block) => Ok(BlockMessage { block }),
            Err(error) => Err(error),
        }
    }

    proof fn lemma_io_round_trip(value: BlockMessage, rest: Seq<u8>) {
        Block::lemma_io_round_trip(value.block, rest);
        assert(BlockMessageView { block: value.block.deep_view() } =~= value.deep_view());
    }
}

impl Message for BlockMessage {
    open spec fn spec_command() -> CommandName {
        CommandName::Block
    }

    fn get_command_name() -> (r: CommandName) {
        CommandName::Block
    }
}

} // verus!
