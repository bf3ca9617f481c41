use vstd::prelude::*;

use super::block::{Block, BlockView};
use super::error_block::ErrorBlock;
use super::hash::{hash256d, sha256d_of, HashType};

verus! {

/// One node of the in-memory block tree: a block, its header's identity
/// (kept so that children can link to it without rehashing), and the index
/// of its parent node, `None` for the root.
#[derive(Debug, Clone)]
pub struct NodeChain {
    pub block: Block,
    pub header_hash: HashType,
    pub index_previous_node: Option<usize>,
}

/// The mathematical shape of a chain node.
#[verifier::ext_equal]
pub ghost struct NodeChainView {
    pub block: BlockView,
    pub header_hash: Seq<u8>,
    pub index_previous_node: Option<usize>,
}

impl DeepView for NodeChain {
    type V = NodeChainView;

    open spec fn deep_view(&self) -> NodeChainView {
        NodeChainView {
            block: self.block.deep_view(),
            header_hash: self.header_hash@,
            index_previous_node: self.index_previous_node,
        }
    }
}

impl NodeChain {
    /// The stored identity is really the double SHA-256 of the stored
    /// block's header.
    pub open spec fn wf(&self) -> bool {
        self.header_hash@ == sha256d_of(self.block.header.id_bytes())
    }

    /// The root node: no parent.
    pub fn first(block: Block) -> (r: Result<NodeChain, ErrorBlock>)
        ensures
            r is Ok,
            r matches Ok(n) ==> {
                &&& n.block == block
                &&& n.index_previous_node is None
                &&& n.wf()
            },
    {
        let header_hash = match block.header.get_hash256d() {
            Ok(header_hash) => header_hash,
            Err(error) => {
                return Err(error);
            },
        };
        Ok(NodeChain { block, header_hash, index_previous_node: None })
    }

    /// A node linked to the parent at `index_previous_node`.
    pub fn new(block: Block, index_previous_node: usize) -> (r: Result<NodeChain, ErrorBlock>)
        ensures
            r is Ok,
            r matches Ok(n) ==> {
                &&& n.block == block
                &&& n.index_previous_node == Some(index_previous_node)
                &&& n.wf()
            },
    {
        let header_hash = match block.header.get_hash256d() {
            Ok(header_hash) => header_hash,
            Err(error) => {
                return Err(error);
            },
        };
        Ok(NodeChain { block, header_hash, index_previous_node: Some(index_previous_node) })
    }

    /// Whether this node holds the block with the given header: the same
    /// identity fields, whatever transaction count rides beside them.
    pub fn is_equal(&self, block: &Block) -> (r: bool)
        ensures
            r == (self.block.header.deep_view() == block.header.deep_view()),
    {
        super::block_header::headers_agree(&self.block.header, &block.header)
    }

    /// Whether `block` names this node's block as its parent.
    pub fn is_previous_of(&self, block: &Block) -> (r: bool)
        ensures
            r == (block.header.previous_block_header_hash@ == self.header_hash@),
    {
        super::hash::hashes_equal(&block.header.previous_block_header_hash, &self.header_hash)
    }

    /// Replaces the held block with a full one carrying the same header;
    /// a block with another header is refused and nothing changes.
    pub fn update_block(&mut self, block: Block) -> (r: Result<(), ErrorBlock>)
        ensures
            (r is Ok <==> block.header.deep_view() == old(self).block.header.deep_view()),
            r is Ok ==> {
                &&& final(self).block == block
                &&& final(self).header_hash == old(self).header_hash
                &&& final(self).index_previous_node == old(self).index_previous_node
                &&& (old(self).wf() ==> final(self).wf())
            },
            r is Err ==> *final(self) == *old(self) && r == Err::<(), ErrorBlock>(
                ErrorBlock::CouldNotUpdate,
            ),
    {
        if super::block_header::headers_agree(&self.block.header, &block.header) {
            proof {
                super::block_header::lemma_id_bytes_from_view(self.block.header);
                super::block_header::lemma_id_bytes_from_view(block.header);
            }
            self.block = block;
            Ok(())
        } else {
            Err(ErrorBlock::CouldNotUpdate)
        }
    }
}

} // verus!
