use vstd::prelude::*;


use super::block::{Block, BlockView};
use super::block_header::{header_view_passes_proof_of_work, BlockHeader, BlockHeaderView};
use super::error_block::ErrorBlock;
use super::hash::sha256d_of;
use super::node_chain::{NodeChain, NodeChainView};

verus! {

broadcast use vstd::seq_lib::group_seq_lib_default;

/// The views of the blocks whose header time is after `timestamp`, in chain
/// order.
pub open spec fn blocks_after_timestamp(
    blocks: Seq<NodeChain>,
    timestamp: u32,
) -> Seq<super::block::BlockView> {
    blocks.map_values(|n: NodeChain| n.block.deep_view()).filter(
        |b: super::block::BlockView| b.header.time > timestamp,
    )
}

/// The header-only blocks at or after `timestamp`: the ones an initial
/// block download still has to fetch in full.
pub open spec fn headers_to_download(blocks: Seq<NodeChain>, timestamp: u32) -> Seq<
    super::block::BlockView,
> {
    blocks.map_values(|n: NodeChain| n.block.deep_view()).filter(
        |b: super::block::BlockView| b.transactions.len() == 0 && b.header.time >= timestamp,
    )
}

/// Whether some node of the chain holds a block with the given header:
/// the same identity fields, whatever transaction count rides beside them.
pub open spec fn chain_has_header(blocks: Seq<NodeChain>, header: BlockHeader) -> bool {
    exists|i: int|
        0 <= i < blocks.len() && blocks[i].block.header.deep_view() == header.deep_view()
}

/// The first node whose stored identity is `hash`; `None` when there is
/// none.
pub open spec fn find_parent(blocks: Seq<NodeChain>, hash: Seq<u8>) -> Option<int>
    decreases blocks.len(),
{
    if blocks.len() == 0 {
        None
    } else if blocks[0].header_hash@ == hash {
        Some(0)
    } else {
        match find_parent(blocks.drop_first(), hash) {
            Some(j) => Some(j + 1),
            None => None,
        }
    }
}

/// A found parent is the first match; `None` means no match at all.
pub proof fn lemma_find_parent_characterise(blocks: Seq<NodeChain>, hash: Seq<u8>)
    ensures
        match find_parent(blocks, hash) {
            Some(i) => 0 <= i < blocks.len() && blocks[i].header_hash@ == hash && forall|j: int|
                0 <= j < i ==> (#[trigger] blocks[j]).header_hash@ != hash,
            None => forall|j: int|
                0 <= j < blocks.len() ==> (#[trigger] blocks[j]).header_hash@ != hash,
        },
    decreases blocks.len(),
{
    if blocks.len() > 0 && blocks[0].header_hash@ != hash {
        lemma_find_parent_characterise(blocks.drop_first(), hash);
        match find_parent(blocks.drop_first(), hash) {
            Some(i) => {
                assert(blocks.drop_first()[i] == blocks[i + 1]);
                assert forall|j: int| 0 <= j < i + 1 implies (#[trigger] blocks[j]).header_hash@
                    != hash by {
                    if j > 0 {
                        assert(blocks.drop_first()[j - 1] == blocks[j]);
                    }
                }
            },
            None => {
                assert forall|j: int|
                    0 <= j < blocks.len() implies (#[trigger] blocks[j]).header_hash@ != hash by {
                    if j > 0 {
                        assert(blocks.drop_first()[j - 1] == blocks[j]);
                    }
                }
            },
        }
    }
}

/// A first match at `i` is what `find_parent` returns.
pub proof fn lemma_find_parent_complete(blocks: Seq<NodeChain>, hash: Seq<u8>, i: int)
    requires
        0 <= i < blocks.len(),
        blocks[i].header_hash@ == hash,
        forall|j: int| 0 <= j < i ==> (#[trigger] blocks[j]).header_hash@ != hash,
    ensures
        find_parent(blocks, hash) == Some(i),
    decreases blocks.len(),
{
    if i > 0 {
        assert forall|j: int| 0 <= j < i - 1 implies (#[trigger] blocks.drop_first()[
        j]).header_hash@ != hash by {
            assert(blocks.drop_first()[j] == blocks[j + 1]);
        }
        assert(blocks.drop_first()[i - 1] == blocks[i]);
        lemma_find_parent_complete(blocks.drop_first(), hash, i - 1);
    }
}

/// The first position of `x` in `positions`, counting from the front.
pub open spec fn first_position(positions: Seq<usize>, x: usize) -> Option<int>
    decreases positions.len(),
{
    if positions.len() == 0 {
        None
    } else if positions[0] == x {
        Some(0)
    } else {
        match first_position(positions.drop_first(), x) {
            Some(j) => Some(j + 1),
            None => None,
        }
    }
}

pub proof fn lemma_first_position_characterise(positions: Seq<usize>, x: usize)
    ensures
        match first_position(positions, x) {
            Some(i) => 0 <= i < positions.len() && positions[i] == x && forall|j: int|
                0 <= j < i ==> (#[trigger] positions[j]) != x,
            None => forall|j: int| 0 <= j < positions.len() ==> (#[trigger] positions[j]) != x,
        },
    decreases positions.len(),
{
    if positions.len() > 0 && positions[0] != x {
        lemma_first_position_characterise(positions.drop_first(), x);
        match first_position(positions.drop_first(), x) {
            Some(i) => {
                assert(positions.drop_first()[i] == positions[i + 1]);
                assert forall|j: int| 0 <= j < i + 1 implies (#[trigger] positions[j]) != x by {
                    if j > 0 {
                        assert(positions.drop_first()[j - 1] == positions[j]);
                    }
                }
            },
            None => {
                assert forall|j: int| 0 <= j < positions.len() implies (#[trigger] positions[j])
                    != x by {
                    if j > 0 {
                        assert(positions.drop_first()[j - 1] == positions[j]);
                    }
                }
            },
        }
    }
}

pub proof fn lemma_first_position_complete(positions: Seq<usize>, x: usize, i: int)
    requires
        0 <= i < positions.len(),
        positions[i] == x,
        forall|j: int| 0 <= j < i ==> (#[trigger] positions[j]) != x,
    ensures
        first_position(positions, x) == Some(i),
    decreases positions.len(),
{
    if i > 0 {
        assert forall|j: int| 0 <= j < i - 1 implies (#[trigger] positions.drop_first()[j])
            != x by {
            assert(positions.drop_first()[j] == positions[j + 1]);
        }
        assert(positions.drop_first()[i - 1] == positions[i]);
        lemma_first_position_complete(positions.drop_first(), x, i - 1);
    }
}

/// The views of the chain's nodes, in storage order.
pub open spec fn node_views(blocks: Seq<NodeChain>) -> Seq<NodeChainView> {
    Seq::new(blocks.len(), |i: int| blocks[i].deep_view())
}

/// Whether some node view holds a block with the given header.
pub open spec fn views_have_header(views: Seq<NodeChainView>, header: BlockHeaderView) -> bool {
    exists|i: int| 0 <= i < views.len() && views[i].block.header == header
}

/// The first node view whose stored identity is `hash`; `None` when there
/// is none.
pub open spec fn find_parent_views(views: Seq<NodeChainView>, hash: Seq<u8>) -> Option<int>
    decreases views.len(),
{
    if views.len() == 0 {
        None
    } else if views[0].header_hash == hash {
        Some(0)
    } else {
        match find_parent_views(views.drop_first(), hash) {
            Some(j) => Some(j + 1),
            None => None,
        }
    }
}

/// The two parent searches agree: on the nodes and on their views.
pub proof fn lemma_find_parent_views(blocks: Seq<NodeChain>, hash: Seq<u8>)
    ensures
        find_parent_views(node_views(blocks), hash) == find_parent(blocks, hash),
    decreases blocks.len(),
{
    if blocks.len() > 0 {
        lemma_find_parent_views(blocks.drop_first(), hash);
        assert(node_views(blocks).drop_first() =~= node_views(blocks.drop_first()));
        assert(node_views(blocks)[0] == blocks[0].deep_view());
    }
}

/// The two duplicate checks agree: on the nodes and on their views.
pub proof fn lemma_views_have_header(blocks: Seq<NodeChain>, header: BlockHeader)
    ensures
        views_have_header(node_views(blocks), header.deep_view()) == chain_has_header(
            blocks,
            header,
        ),
{
    if chain_has_header(blocks, header) {
        let i = choose|i: int|
            0 <= i < blocks.len() && blocks[i].block.header.deep_view() == header.deep_view();
        assert(node_views(blocks)[i].block.header == header.deep_view());
    }
    if views_have_header(node_views(blocks), header.deep_view()) {
        let i = choose|i: int|
            0 <= i < node_views(blocks).len() && node_views(blocks)[i].block.header
                == header.deep_view();
        assert(blocks[i].block.header.deep_view() == header.deep_view());
    }
}

/// Whether a header may enter the chain: it carries its work, is not there
/// yet, and names a known node as parent.
pub open spec fn header_admissible(views: Seq<NodeChainView>, header: BlockHeaderView) -> bool {
    &&& header_view_passes_proof_of_work(header)
    &&& !views_have_header(views, header)
    &&& find_parent_views(views, header.previous_block_header_hash) is Some
}

/// The tip set after a node at `new_index` replaced or joined its parent.
pub open spec fn tips_after_append(tips: Seq<usize>, parent: int, new_index: int) -> Seq<usize> {
    match first_position(tips, parent as usize) {
        Some(k) => tips.update(k, new_index as usize),
        None => tips.push(new_index as usize),
    }
}

/// The chain's view after one header was offered: unchanged when the header
/// is not admissible, else grown by one empty-bodied node at the tip.
pub open spec fn chain_step(views: Seq<NodeChainView>, tips: Seq<usize>, header: BlockHeaderView)
    -> (Seq<NodeChainView>, Seq<usize>) {
    if header_admissible(views, header) {
        let parent = find_parent_views(views, header.previous_block_header_hash).unwrap();
        let node = NodeChainView {
            block: BlockView { header, transactions: Seq::empty() },
            header_hash: sha256d_of(super::block_header::header_view_id_bytes(header)),
            index_previous_node: Some(parent as usize),
        };
        (views.push(node), tips_after_append(tips, parent, views.len() as int))
    } else {
        (views, tips)
    }
}

/// The chain's view after a whole batch of headers, offered in order, and
/// how many were taken.
pub open spec fn chain_fold(
    views: Seq<NodeChainView>,
    tips: Seq<usize>,
    headers: Seq<BlockHeaderView>,
) -> (Seq<NodeChainView>, Seq<usize>, int)
    decreases headers.len(),
{
    if headers.len() == 0 {
        (views, tips, 0)
    } else {
        let step = chain_step(views, tips, headers[0]);
        let rest = chain_fold(step.0, step.1, headers.drop_first());
        (
            rest.0,
            rest.1,
            rest.2 + if header_admissible(views, headers[0]) {
                1int
            } else {
                0int
            },
        )
    }
}

/// Offering one more header folds on at the end.
pub proof fn lemma_chain_fold_snoc(
    views: Seq<NodeChainView>,
    tips: Seq<usize>,
    headers: Seq<BlockHeaderView>,
    header: BlockHeaderView,
)
    ensures
        chain_fold(views, tips, headers.push(header)) == {
            let folded = chain_fold(views, tips, headers);
            let step = chain_step(folded.0, folded.1, header);
            (
                step.0,
                step.1,
                folded.2 + if header_admissible(folded.0, header) {
                    1int
                } else {
                    0int
                },
            )
        },
    decreases headers.len(),
{
    let lhs = chain_fold(views, tips, headers.push(header));
    let folded = chain_fold(views, tips, headers);
    let outcome = chain_step(folded.0, folded.1, header);
    if headers.len() == 0 {
        assert(headers.push(header).drop_first() =~= Seq::<BlockHeaderView>::empty());
        assert(headers.push(header)[0] == header);
        assert(folded == (views, tips, 0int));
        let first = chain_step(views, tips, header);
        assert(chain_fold(first.0, first.1, headers.push(header).drop_first()) == (
            first.0,
            first.1,
            0int,
        ));
        assert(lhs.0 == outcome.0 && lhs.1 == outcome.1);
        assert(lhs.2 == folded.2 + if header_admissible(folded.0, header) {
            1int
        } else {
            0int
        });
    } else {
        assert(headers.push(header)[0] == headers[0]);
        assert(headers.push(header).drop_first() =~= headers.drop_first().push(header));
        let step = chain_step(views, tips, headers[0]);
        lemma_chain_fold_snoc(step.0, step.1, headers.drop_first(), header);
        assert(lhs.0 == outcome.0 && lhs.1 == outcome.1);
        assert(lhs.2 == folded.2 + if header_admissible(folded.0, header) {
            1int
        } else {
            0int
        });
    }
    assert(lhs == (outcome.0, outcome.1, folded.2 + if header_admissible(folded.0, header) {
        1int
    } else {
        0int
    }));
}

/// A fold takes exactly as many nodes as it counts.
pub proof fn lemma_chain_fold_len(
    views: Seq<NodeChainView>,
    tips: Seq<usize>,
    headers: Seq<BlockHeaderView>,
)
    ensures
        chain_fold(views, tips, headers).0.len() == views.len() + chain_fold(
            views,
            tips,
            headers,
        ).2,
        chain_fold(views, tips, headers).2 >= 0,
    decreases headers.len(),
{
    if headers.len() > 0 {
        let step = chain_step(views, tips, headers[0]);
        lemma_chain_fold_len(step.0, step.1, headers.drop_first());
    }
}

/// Appending a block leaves a node holding its header at the new tip, and a
/// chain already holding a block with some header refuses that block as
/// `TransactionAlreadyInBlock` and stays unchanged; so appending the same
/// block twice changes nothing the second time.
pub proof fn lemma_append_twice_rejected(blocks: Seq<NodeChain>, node: NodeChain, block: Block)
    requires
        node.block.header == block.header,
    ensures
        chain_has_header(blocks.push(node), block.header),
{
    assert(blocks.push(node)[blocks.len() as int].block.header == block.header);
}

/// The in-memory block tree: nodes in a flat vector, each linked to its
/// parent by index, and the indices of every fork's frontier.
#[derive(Debug, Clone)]
pub struct BlockChain {
    pub blocks: Vec<NodeChain>,
    pub last_blocks: Vec<usize>,
}

impl BlockChain {
    /// The shape every chain keeps: a root at the front, every other node
    /// linked to an earlier one, every stored identity really the node's
    /// header hash, and every tip index in range.
    pub open spec fn wf(&self) -> bool {
        &&& self.blocks@.len() >= 1
        &&& self.blocks@[0].index_previous_node is None
        &&& (forall|i: int| 0 <= i < self.blocks@.len() ==> (#[trigger] self.blocks@[i]).wf())
        &&& (forall|i: int|
            1 <= i < self.blocks@.len() ==> (#[trigger] self.blocks@[i]).index_previous_node
                is Some && self.blocks@[i].index_previous_node.unwrap() < i)
        &&& (forall|k: int|
            0 <= k < self.last_blocks@.len() ==> (#[trigger] self.last_blocks@[k])
                < self.blocks@.len())
    }

    /// A chain holding one root block, which is its only tip.
    pub fn new(block: Block) -> (r: Result<BlockChain, ErrorBlock>)
        ensures
            r is Ok,
            r matches Ok(c) ==> {
                &&& c.wf()
                &&& c.blocks@.len() == 1
                &&& c.blocks@[0].block == block
                &&& c.last_blocks@ == seq![0usize]
            },
    {
        let first_node = match NodeChain::first(block) {
            Ok(first_node) => first_node,
            Err(error) => {
                return Err(error);
            },
        };
        let mut blocks: Vec<NodeChain> = Vec::new();
        blocks.push(first_node);
        let mut last_blocks: Vec<usize> = Vec::new();
        last_blocks.push(0);
        proof {
            assert(last_blocks@ =~= seq![0usize]);
        }
        Ok(BlockChain { blocks, last_blocks })
    }

    /// Appends a block holding only a header; same rules as `append_block`.
    pub fn append_header(&mut self, header: BlockHeader) -> (r: Result<(), ErrorBlock>)
        requires
            old(self).wf(),
        ensures
            final(self).wf(),
            (chain_has_header(old(self).blocks@, header) ==> r == Err::<(), ErrorBlock>(
                ErrorBlock::TransactionAlreadyInBlock,
            )),
            (r is Err ==> *final(self) == *old(self)),
            (r is Ok <==> !chain_has_header(old(self).blocks@, header) && find_parent(
                old(self).blocks@,
                header.previous_block_header_hash@,
            ) is Some),
            (!chain_has_header(old(self).blocks@, header) && find_parent(
                old(self).blocks@,
                header.previous_block_header_hash@,
            ) is None ==> r == Err::<(), ErrorBlock>(ErrorBlock::CouldNotAppendBlock)),
            (r is Ok ==> {
                let parent = find_parent(
                    old(self).blocks@,
                    header.previous_block_header_hash@,
                ).unwrap();
                let new_index = old(self).blocks@.len() as int;
                &&& final(self).blocks@.len() == new_index + 1
                &&& final(self).blocks@.take(new_index) == old(self).blocks@
                &&& final(self).blocks@.last().block.header == header
                &&& final(self).blocks@.last().block.transactions@.len() == 0
                &&& final(self).blocks@.last().wf()
                &&& final(self).blocks@.last().index_previous_node is Some
                &&& final(self).blocks@.last().index_previous_node.unwrap() == parent
                &&& chain_has_header(final(self).blocks@, header)
                &&& (match first_position(old(self).last_blocks@, parent as usize) {
                    Some(k) => final(self).last_blocks@ == old(self).last_blocks@.update(
                        k,
                        new_index as usize,
                    ),
                    None => final(self).last_blocks@ == old(self).last_blocks@.push(
                        new_index as usize,
                    ),
                })
            }),
    {
        let block = Block::new(header);
        let result = self.append_block(block);
        proof {
            if result is Ok {
                assert(self.blocks@.last().wf());
            }
        }
        result
    }

    /// Appends a block, linking it to the first node whose identity its
    /// header names as parent. A block the chain already holds is refused
    /// as `TransactionAlreadyInBlock`; one with no known parent as
    /// `CouldNotAppendBlock`. Either refusal leaves the chain unchanged.
    /// On success the block becomes a tip: it replaces its parent in the
    /// tip set when the parent was one, and opens a new fork otherwise.
    pub fn append_block(&mut self, block: Block) -> (r: Result<(), ErrorBlock>)
        requires
            old(self).wf(),
        ensures
            final(self).wf(),
            (chain_has_header(old(self).blocks@, block.header) ==> r == Err::<(), ErrorBlock>(
                ErrorBlock::TransactionAlreadyInBlock,
            )),
            (r is Err ==> *final(self) == *old(self)),
            (r is Ok <==> !chain_has_header(old(self).blocks@, block.header) && find_parent(
                old(self).blocks@,
                block.header.previous_block_header_hash@,
            ) is Some),
            (!chain_has_header(old(self).blocks@, block.header) && find_parent(
                old(self).blocks@,
                block.header.previous_block_header_hash@,
            ) is None ==> r == Err::<(), ErrorBlock>(ErrorBlock::CouldNotAppendBlock)),
            (r is Ok ==> {
                let parent = find_parent(
                    old(self).blocks@,
                    block.header.previous_block_header_hash@,
                ).unwrap();
                let new_index = old(self).blocks@.len() as int;
                &&& final(self).blocks@.len() == new_index + 1
                &&& final(self).blocks@.take(new_index) == old(self).blocks@
                &&& final(self).blocks@.last().block == block
                &&& final(self).blocks@.last().index_previous_node is Some
                &&& final(self).blocks@.last().index_previous_node.unwrap() == parent
                &&& chain_has_header(final(self).blocks@, block.header)
                &&& (match first_position(old(self).last_blocks@, parent as usize) {
                    Some(k) => final(self).last_blocks@ == old(self).last_blocks@.update(
                        k,
                        new_index as usize,
                    ),
                    None => final(self).last_blocks@ == old(self).last_blocks@.push(
                        new_index as usize,
                    ),
                })
            }),
    {
        let ghost before = *self;
        let mut i: usize = 0;
        while i < self.blocks.len()
            invariant
                old(self).wf(),
                *self == *old(self),
                before == *old(self),
                i <= self.blocks@.len(),
                forall|j: int|
                    0 <= j < i ==> (#[trigger] self.blocks@[j]).block.header.deep_view()
                        != block.header.deep_view(),
            decreases self.blocks@.len() - i,
        {
            if self.blocks[i].is_equal(&block) {
                return Err(ErrorBlock::TransactionAlreadyInBlock);
            }
            i = i + 1;
        }
        let mut j: usize = 0;
        let mut parent: usize = 0;
        let mut found = false;
        while j < self.blocks.len() && !found
            invariant
                old(self).wf(),
                *self == *old(self),
                before == *old(self),
                !chain_has_header(old(self).blocks@, block.header),
                j <= self.blocks@.len(),
                !found ==> forall|k: int|
                    0 <= k < j ==> (#[trigger] self.blocks@[k]).header_hash@
                        != block.header.previous_block_header_hash@,
                found ==> {
                    &&& j < self.blocks@.len()
                    &&& parent == j
                    &&& self.blocks@[j as int].header_hash@
                        == block.header.previous_block_header_hash@
                    &&& forall|k: int|
                        0 <= k < j ==> (#[trigger] self.blocks@[k]).header_hash@
                            != block.header.previous_block_header_hash@
                },
            decreases self.blocks@.len() - j + (if found {
                0int
            } else {
                1int
            }),
        {
            if self.blocks[j].is_previous_of(&block) {
                parent = j;
                found = true;
            } else {
                j = j + 1;
            }
        }
        if !found {
            proof {
                lemma_find_parent_characterise(
                    self.blocks@,
                    block.header.previous_block_header_hash@,
                );
            }
            return Err(ErrorBlock::CouldNotAppendBlock);
        }
        proof {
            lemma_find_parent_complete(
                self.blocks@,
                block.header.previous_block_header_hash@,
                parent as int,
            );
        }
        let node = match NodeChain::new(block, parent) {
            Ok(node) => node,
            Err(error) => {
                return Err(error);
            },
        };
        let ghost gnode = node;
        let new_index = self.blocks.len();
        self.blocks.push(node);
        proof {
            assert(self.blocks@.take(new_index as int) =~= old(self).blocks@);
        }
        let ghost tips_before = self.last_blocks@;
        let mut k: usize = 0;
        while k < self.last_blocks.len()
            invariant
                old(self).wf(),
                !chain_has_header(old(self).blocks@, block.header),
                find_parent(old(self).blocks@, block.header.previous_block_header_hash@) == Some(
                    parent as int,
                ),
                parent < old(self).blocks@.len(),
                new_index == old(self).blocks@.len(),
                gnode.wf(),
                gnode.block == block,
                gnode.index_previous_node == Some(parent),
                self.blocks@ == old(self).blocks@.push(gnode),
                tips_before == old(self).last_blocks@,
                self.last_blocks@ == tips_before,
                k <= tips_before.len(),
                forall|m: int| 0 <= m < k ==> (#[trigger] tips_before[m]) != parent,
            decreases tips_before.len() - k,
        {
            if self.last_blocks[k] == parent {
                proof {
                    lemma_first_position_complete(tips_before, parent, k as int);
                }
                self.last_blocks[k] = new_index;
                proof {
                    assert(self.blocks@.take(new_index as int) =~= old(self).blocks@);
                    assert(self.blocks@.last() == gnode);
                    assert(chain_has_header(self.blocks@, block.header)) by {
                        assert(self.blocks@[new_index as int].block.header == block.header);
                    }
                }
                return Ok(());
            }
            k = k + 1;
        }
        proof {
            lemma_first_position_characterise(tips_before, parent);
        }
        self.last_blocks.push(new_index);
        proof {
            assert(self.blocks@.take(new_index as int) =~= old(self).blocks@);
            assert(self.blocks@.last() == gnode);
            assert(chain_has_header(self.blocks@, block.header)) by {
                assert(self.blocks@[new_index as int].block.header == block.header);
            }
        }
        Ok(())
    }

    /// How many nodes stand on the path from the root to `index`, that node
    /// included: the accumulated headers behind a tip.
    pub open spec fn node_depth(blocks: Seq<NodeChain>, index: int) -> nat
        decreases index,
    {
        if index < 0 || index >= blocks.len() {
            0
        } else {
            match blocks[index].index_previous_node {
                Some(parent) => if parent < index {
                    1 + Self::node_depth(blocks, parent as int)
                } else {
                    1
                },
                None => 1,
            }
        }
    }

    /// The accumulated headers behind the node at `index`.
    pub fn depth_of(&self, index: usize) -> (r: usize)
        requires
            self.wf(),
            index < self.blocks@.len(),
        ensures
            r == Self::node_depth(self.blocks@, index as int),
            r >= 1,
    {
        let total: usize = self.blocks.len();
        proof {
            assert(self.blocks@.len() == total);
        }
        let mut cur: usize = index;
        let mut depth: usize = 1;
        while self.blocks[cur].index_previous_node.is_some()
            invariant
                self.wf(),
                cur < self.blocks@.len(),
                self.blocks@.len() <= usize::MAX,
                depth >= 1,
                depth + cur <= index + 1,
                index < self.blocks@.len(),
                Self::node_depth(self.blocks@, index as int) == (depth - 1) + Self::node_depth(
                    self.blocks@,
                    cur as int,
                ),
            decreases cur,
        {
            let parent = match self.blocks[cur].index_previous_node {
                Some(parent) => parent,
                None => {
                    proof {
                        assert(false);
                    }
                    return depth;
                },
            };
            proof {
                if cur > 0 {
                    assert(self.blocks@[cur as int].index_previous_node.unwrap() < cur);
                } else {
                    assert(self.blocks@[0].index_previous_node is None);
                    assert(false);
                }
            }
            proof {
                assert(depth + 1 <= index + 1);
            }
            depth = depth + 1;
            cur = parent;
        }
        proof {
            assert(Self::node_depth(self.blocks@, cur as int) == 1);
        }
        depth
    }

    /// The canonical tip: among the tips, the first whose path back to the
    /// root holds the most headers. `None` only for a chain without tips.
    pub fn canonical_tip(&self) -> (r: Option<usize>)
        requires
            self.wf(),
        ensures
            (r is Some <==> self.last_blocks@.len() > 0),
            r matches Some(tip) ==> exists|k: int|
                {
                    &&& 0 <= k < self.last_blocks@.len()
                    &&& (#[trigger] self.last_blocks@[k]) == tip
                    &&& (forall|j: int|
                        0 <= j < self.last_blocks@.len() ==> Self::node_depth(
                            self.blocks@,
                            tip as int,
                        ) >= Self::node_depth(
                            self.blocks@,
                            (#[trigger] self.last_blocks@[j]) as int,
                        ))
                    &&& (forall|j: int|
                        0 <= j < k ==> Self::node_depth(
                            self.blocks@,
                            (#[trigger] self.last_blocks@[j]) as int,
                        ) < Self::node_depth(self.blocks@, tip as int))
                },
    {
        if self.last_blocks.len() == 0 {
            return None;
        }
        let mut best: usize = 0;
        let mut best_depth: usize = self.depth_of(self.last_blocks[0]);
        let mut k: usize = 1;
        while k < self.last_blocks.len()
            invariant
                self.wf(),
                best < k <= self.last_blocks@.len(),
                self.last_blocks@.len() > 0,
                best_depth == Self::node_depth(
                    self.blocks@,
                    self.last_blocks@[best as int] as int,
                ),
                forall|j: int|
                    0 <= j < k ==> best_depth >= Self::node_depth(
                        self.blocks@,
                        (#[trigger] self.last_blocks@[j]) as int,
                    ),
                forall|j: int|
                    0 <= j < best ==> Self::node_depth(
                        self.blocks@,
                        (#[trigger] self.last_blocks@[j]) as int,
                    ) < best_depth,
            decreases self.last_blocks@.len() - k,
        {
            let depth = self.depth_of(self.last_blocks[k]);
            if depth > best_depth {
                best = k;
                best_depth = depth;
            }
            k = k + 1;
        }
        Some(self.last_blocks[best])
    }

    /// Whether some node holds a block with the given block's header.
    pub fn knows_header(&self, block: &Block) -> (r: bool)
        ensures
            r == chain_has_header(self.blocks@, block.header),
    {
        let mut i: usize = 0;
        while i < self.blocks.len()
            invariant
                i <= self.blocks@.len(),
                forall|j: int|
                    0 <= j < i ==> (#[trigger] self.blocks@[j]).block.header.deep_view()
                        != block.header.deep_view(),
            decreases self.blocks@.len() - i,
        {
            if self.blocks[i].is_equal(block) {
                return true;
            }
            i = i + 1;
        }
        false
    }

    /// Replaces the first header-matching node's block with the given full
    /// block; a block no node holds is refused as `CouldNotUpdate`, leaving
    /// the chain unchanged.
    pub fn update_block(&mut self, block: Block) -> (r: Result<(), ErrorBlock>)
        requires
            old(self).wf(),
        ensures
            final(self).wf(),
            (r is Ok <==> chain_has_header(old(self).blocks@, block.header)),
            (r is Err ==> *final(self) == *old(self) && r == Err::<(), ErrorBlock>(
                ErrorBlock::CouldNotUpdate,
            )),
            (r is Ok ==> {
                &&& final(self).last_blocks@ == old(self).last_blocks@
                &&& final(self).blocks@.len() == old(self).blocks@.len()
                &&& exists|i: int|
                    {
                        &&& 0 <= i < old(self).blocks@.len()
                        &&& old(self).blocks@[i].block.header.deep_view()
                            == block.header.deep_view()
                        &&& final(self).blocks@[i].block == block
                        &&& final(self).blocks@[i].index_previous_node == old(
                            self,
                        ).blocks@[i].index_previous_node
                        &&& final(self).blocks@ == old(self).blocks@.update(
                            i,
                            final(self).blocks@[i],
                        )
                    }
            }),
    {
        let mut i: usize = 0;
        while i < self.blocks.len()
            invariant
                old(self).wf(),
                *self == *old(self),
                i <= self.blocks@.len(),
                forall|j: int|
                    0 <= j < i ==> (#[trigger] self.blocks@[j]).block.header.deep_view()
                        != block.header.deep_view(),
            decreases self.blocks@.len() - i,
        {
            if self.blocks[i].is_equal(&block) {
                let node = &mut self.blocks[i];
                let result = node.update_block(block);
                proof {
                    assert(result is Ok);
                    assert(self.blocks@ =~= old(self).blocks@.update(
                        i as int,
                        self.blocks@[i as int],
                    ));
                }
                return Ok(());
            }
            i = i + 1;
        }
        Err(ErrorBlock::CouldNotUpdate)
    }

    /// Every block whose header time is after `timestamp`, in chain order.
    pub fn get_blocks_after_timestamp(&self, timestamp: u32) -> (r: Result<Vec<Block>, ErrorBlock>)
        ensures
            r is Ok,
            r matches Ok(v) ==> v.deep_view() == blocks_after_timestamp(self.blocks@, timestamp),
    {
        let mut out: Vec<Block> = Vec::new();
        let mut i: usize = 0;
        proof {
            assert(blocks_after_timestamp(self.blocks@.take(0), timestamp) =~= Seq::<
                super::block::BlockView,
            >::empty()) by {
                reveal_with_fuel(Seq::<super::block::BlockView>::filter, 2);
                assert(self.blocks@.take(0).map_values(|n: NodeChain| n.block.deep_view()) =~= Seq::<
                    super::block::BlockView,
                >::empty());
            }
            assert(out.deep_view() =~= Seq::<super::block::BlockView>::empty());
        }
        while i < self.blocks.len()
            invariant
                i <= self.blocks@.len(),
                out.deep_view() == blocks_after_timestamp(self.blocks@.take(i as int), timestamp),
            decreases self.blocks@.len() - i,
        {
            let ghost views = out.deep_view();
            proof {
                let mapped = self.blocks@.take(i as int).map_values(
                    |n: NodeChain| n.block.deep_view(),
                );
                let mapped_next = self.blocks@.take(i + 1).map_values(
                    |n: NodeChain| n.block.deep_view(),
                );
                let single = seq![self.blocks@[i as int].block.deep_view()];
                assert(mapped_next =~= mapped + single);
                reveal_with_fuel(Seq::<super::block::BlockView>::filter, 2);
                assert(single.drop_last() =~= Seq::<super::block::BlockView>::empty());
            }
            if self.blocks[i].block.header.time > timestamp {
                let block = self.blocks[i].block.clone();
                out.push(block);
                proof {
                    assert(out.deep_view() =~= views.push(
                        self.blocks@[i as int].block.deep_view(),
                    ));
                }
            }
            i = i + 1;
        }
        proof {
            assert(self.blocks@.take(self.blocks@.len() as int) =~= self.blocks@);
        }
        Ok(out)
    }

    /// The blocks whose transactions are still missing and whose header time
    /// is at or after `timestamp`: what a block download should ask for.
    pub fn get_blocks_to_download(&self, timestamp: u32) -> (r: Result<Vec<Block>, ErrorBlock>)
        ensures
            r is Ok,
            r matches Ok(v) ==> v.deep_view() == headers_to_download(self.blocks@, timestamp),
    {
        let mut out: Vec<Block> = Vec::new();
        let mut i: usize = 0;
        proof {
            assert(headers_to_download(self.blocks@.take(0), timestamp) =~= Seq::<
                super::block::BlockView,
            >::empty()) by {
                reveal_with_fuel(Seq::<super::block::BlockView>::filter, 2);
                assert(self.blocks@.take(0).map_values(|n: NodeChain| n.block.deep_view()) =~= Seq::<
                    super::block::BlockView,
                >::empty());
            }
            assert(out.deep_view() =~= Seq::<super::block::BlockView>::empty());
        }
        while i < self.blocks.len()
            invariant
                i <= self.blocks@.len(),
                out.deep_view() == headers_to_download(self.blocks@.take(i as int), timestamp),
            decreases self.blocks@.len() - i,
        {
            let ghost views = out.deep_view();
            proof {
                let mapped = self.blocks@.take(i as int).map_values(
                    |n: NodeChain| n.block.deep_view(),
                );
                let mapped_next = self.blocks@.take(i + 1).map_values(
                    |n: NodeChain| n.block.deep_view(),
                );
                let single = seq![self.blocks@[i as int].block.deep_view()];
                assert(mapped_next =~= mapped + single);
                reveal_with_fuel(Seq::<super::block::BlockView>::filter, 2);
                assert(single.drop_last() =~= Seq::<super::block::BlockView>::empty());
            }
            let node_block = &self.blocks[i].block;
            if node_block.transactions.len() == 0 && node_block.header.time >= timestamp {
                let block = self.blocks[i].block.clone();
                out.push(block);
                proof {
                    assert(out.deep_view() =~= views.push(
                        self.blocks@[i as int].block.deep_view(),
                    ));
                }
            }
            i = i + 1;
        }
        proof {
            assert(self.blocks@.take(self.blocks@.len() as int) =~= self.blocks@);
        }
        Ok(out)
    }

    /// The outputs still spendable after every block of the chain, in
    /// storage order of some well-formed unspent set realizing the chain's
    /// unspent map.
    pub fn get_utxo(&self) -> (r: Vec<super::transaction_output::TransactionOutput>)
        ensures
            exists|u: super::utxo_set::UTXOSet|
                {
                    &&& #[trigger] u.wf()
                    &&& u.utxo_map() == super::utxo_set::apply_blocks_spec(
                        Map::empty(),
                        self.blocks@.map_values(|n: NodeChain| n.block),
                    )
                    &&& r.deep_view() == Seq::new(
                        u.utxo@.len(),
                        |i: int| u.utxo@[i].1.deep_view(),
                    )
                },
    {
        let set = super::utxo_set::UTXOSet::from_blockchain(self);
        let mut out: Vec<super::transaction_output::TransactionOutput> = Vec::new();
        let mut i: usize = 0;
        while i < set.utxo.len()
            invariant
                i <= set.utxo@.len(),
                out@.len() == i,
                forall|j: int|
                    0 <= j < i ==> (#[trigger] out@[j]).deep_view() == set.utxo@[j].1.deep_view(),
            decreases set.utxo@.len() - i,
        {
            out.push(set.utxo[i].1.clone());
            i = i + 1;
        }
        proof {
            assert(out.deep_view() =~= Seq::new(set.utxo@.len(), |i: int| set.utxo@[i].1.deep_view()));
        }
        out
    }

    /// The blocks at the chain's tips, in tip order.
    pub fn latest(&self) -> (r: Vec<Block>)
        requires
            self.wf(),
        ensures
            r@.len() == self.last_blocks@.len(),
            forall|k: int|
                0 <= k < r@.len() ==> (#[trigger] r@[k]).deep_view() == self.blocks@[
                    self.last_blocks@[k] as int
                ].block.deep_view(),
    {
        let mut out: Vec<Block> = Vec::new();
        let mut k: usize = 0;
        while k < self.last_blocks.len()
            invariant
                self.wf(),
                k <= self.last_blocks@.len(),
                out@.len() == k,
                forall|m: int|
                    0 <= m < k ==> (#[trigger] out@[m]).deep_view() == self.blocks@[
                        self.last_blocks@[m] as int
                    ].block.deep_view(),
            decreases self.last_blocks@.len() - k,
        {
            let index = self.last_blocks[k];
            if index < self.blocks.len() {
                out.push(self.blocks[index].block.clone());
            }
            k = k + 1;
        }
        out
    }
}

} // verus!
