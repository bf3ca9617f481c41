use vstd::prelude::*;

use super::block::Block;
use super::block_chain::BlockChain;
use super::hash::sha256d_of;
use super::outpoint::{Outpoint, OutpointView};
use super::transaction::{Transaction, TransactionView};
use super::transaction_output::{TransactionOutput, TransactionOutputView};
use crate::serialization::serializable_internal_order::SerializableInternalOrder;
use crate::wallet_structure::address::{p2pkh_script, Address};

verus! {

/// The map an unspent-output list stands for: outpoint to output, later
/// entries winning.
pub open spec fn utxo_map_of(entries: Seq<(Outpoint, TransactionOutput)>) -> Map<
    OutpointView,
    TransactionOutputView,
>
    decreases entries.len(),
{
    if entries.len() == 0 {
        Map::empty()
    } else {
        utxo_map_of(entries.drop_last()).insert(
            entries.last().0.deep_view(),
            entries.last().1.deep_view(),
        )
    }
}

/// The outpoints a transaction spends.
pub open spec fn tx_spent_keys(t: TransactionView) -> Set<OutpointView> {
    Set::new(|key: OutpointView| exists|i: int| 0 <= i < t.tx_in.len() && t.tx_in[i].previous_output == key)
}

/// The fresh outpoints and outputs a transaction with identifier `txid`
/// creates.
pub open spec fn tx_created_map(txid: Seq<u8>, outs: Seq<TransactionOutputView>) -> Map<
    OutpointView,
    TransactionOutputView,
> {
    Map::new(
        |key: OutpointView| key.hash == txid && 0 <= key.index < outs.len(),
        |key: OutpointView| outs[key.index as int],
    )
}

/// One transaction applied to the unspent map: its inputs' outpoints leave,
/// its outputs enter under its identifier.
pub open spec fn apply_tx_spec(
    m: Map<OutpointView, TransactionOutputView>,
    t: Transaction,
) -> Map<OutpointView, TransactionOutputView> {
    m.remove_keys(tx_spent_keys(t.deep_view())).union_prefer_right(
        tx_created_map(sha256d_of(t.io_bytes()), t.deep_view().tx_out),
    )
}

/// A list of transactions applied in order.
pub open spec fn apply_txs_spec(
    m: Map<OutpointView, TransactionOutputView>,
    txs: Seq<Transaction>,
) -> Map<OutpointView, TransactionOutputView>
    decreases txs.len(),
{
    if txs.len() == 0 {
        m
    } else {
        apply_tx_spec(apply_txs_spec(m, txs.drop_last()), txs.last())
    }
}

/// A block applied to the unspent map: its transactions in order.
pub open spec fn apply_block_spec(
    m: Map<OutpointView, TransactionOutputView>,
    block: Block,
) -> Map<OutpointView, TransactionOutputView> {
    apply_txs_spec(m, block.transactions@)
}

/// Whether every transaction of the block has few enough outputs for each to
/// get a 32-bit outpoint index.
pub open spec fn block_outputs_fit(block: Block) -> bool {
    forall|i: int|
        0 <= i < block.transactions@.len() ==> (#[trigger] block.transactions@[i]).tx_out@.len()
            <= u32::MAX
}

/// A list of blocks applied in order, blocks with oversized transactions
/// skipped.
pub open spec fn apply_blocks_spec(
    m: Map<OutpointView, TransactionOutputView>,
    blocks: Seq<Block>,
) -> Map<OutpointView, TransactionOutputView>
    decreases blocks.len(),
{
    if blocks.len() == 0 {
        m
    } else {
        let rest = apply_blocks_spec(m, blocks.drop_last());
        if block_outputs_fit(blocks.last()) {
            apply_block_spec(rest, blocks.last())
        } else {
            rest
        }
    }
}

/// The unspent outputs of the chain's blocks, root first, and the
/// transactions heard of but not yet seen in a block.
#[derive(Debug)]
pub struct UTXOSet {
    pub utxo: Vec<(Outpoint, TransactionOutput)>,
    pub pending_transactions: Vec<Transaction>,
}

impl UTXOSet {
    /// No outpoint is listed twice.
    pub open spec fn wf(&self) -> bool {
        forall|i: int, j: int|
            0 <= i < j < self.utxo@.len() ==> (#[trigger] self.utxo@[i]).0.deep_view() != (
            #[trigger] self.utxo@[j]).0.deep_view()
    }

    /// The map this set stands for.
    pub open spec fn utxo_map(&self) -> Map<OutpointView, TransactionOutputView> {
        utxo_map_of(self.utxo@)
    }

    /// An empty set: no unspent outputs, nothing pending.
    pub fn new() -> (r: UTXOSet)
        ensures
            r.wf(),
            r.utxo_map() == Map::<OutpointView, TransactionOutputView>::empty(),
            r.pending_transactions@.len() == 0,
    {
        UTXOSet { utxo: Vec::new(), pending_transactions: Vec::new() }
    }

    /// Whether some entry holds the given outpoint, and which output it
    /// locks.
    pub fn get_output(&self, outpoint: &Outpoint) -> (r: Option<TransactionOutput>)
        requires
            self.wf(),
        ensures
            r matches Some(out) ==> self.utxo_map().contains_key(outpoint.deep_view())
                && self.utxo_map()[outpoint.deep_view()] == out.deep_view(),
            r is None ==> !self.utxo_map().contains_key(outpoint.deep_view()),
    {
        let mut i: usize = 0;
        while i < self.utxo.len()
            invariant
                self.wf(),
                i <= self.utxo@.len(),
                forall|j: int|
                    0 <= j < i ==> (#[trigger] self.utxo@[j]).0.deep_view()
                        != outpoint.deep_view(),
            decreases self.utxo@.len() - i,
        {
            if self.utxo[i].0.same_as(outpoint) {
                let out = self.utxo[i].1.clone();
                proof {
                    lemma_utxo_map_of_index(self.utxo@, i as int);
                }
                return Some(out);
            }
            i = i + 1;
        }
        proof {
            lemma_utxo_map_of_absent(self.utxo@, outpoint.deep_view());
        }
        None
    }

    /// Removes the entry with the given outpoint, if it is there.
    #[verifier::rlimit(100)]
    fn remove_outpoint(&mut self, outpoint: &Outpoint)
        requires
            old(self).wf(),
        ensures
            final(self).wf(),
            final(self).utxo_map() == old(self).utxo_map().remove(outpoint.deep_view()),
            final(self).pending_transactions@ == old(self).pending_transactions@,
            forall|j: int|
                0 <= j < final(self).utxo@.len() ==> (#[trigger] final(self).utxo@[j]).0.deep_view()
                    != outpoint.deep_view(),
    {
        let ghost key = outpoint.deep_view();
        let mut kept: Vec<(Outpoint, TransactionOutput)> = Vec::new();
        let mut i: usize = 0;
        proof {
            assert(utxo_map_of(kept@) =~= utxo_map_of(self.utxo@.take(0)).remove(key)) by {
                assert(kept@ =~= Seq::<(Outpoint, TransactionOutput)>::empty());
                assert(self.utxo@.take(0) =~= Seq::<(Outpoint, TransactionOutput)>::empty());
                assert(Map::<OutpointView, TransactionOutputView>::empty().remove(key)
                    =~= Map::<OutpointView, TransactionOutputView>::empty());
            }
        }
        while i < self.utxo.len()
            invariant
                old(self).wf(),
                key == outpoint.deep_view(),
                self.utxo@ == old(self).utxo@,
                self.pending_transactions@ == old(self).pending_transactions@,
                i <= self.utxo@.len(),
                utxo_map_of(kept@) == utxo_map_of(self.utxo@.take(i as int)).remove(key),
                forall|j: int| 0 <= j < kept@.len() ==> (#[trigger] kept@[j]).0.deep_view() != key,
                forall|j: int, m: int|
                    0 <= j < m < kept@.len() ==> (#[trigger] kept@[j]).0.deep_view() != (
                    #[trigger] kept@[m]).0.deep_view(),
                forall|j: int|
                    0 <= j < kept@.len() ==> exists|m: int|
                        0 <= m < i && (#[trigger] kept@[j]).0.deep_view() == self.utxo@[
                        m].0.deep_view(),
            decreases self.utxo@.len() - i,
        {
            let ghost kept_before = kept@;
            let entry_outpoint = self.utxo[i].0;
            let keep = !entry_outpoint.same_as(outpoint);
            if keep {
                let output = self.utxo[i].1.clone();
                kept.push((entry_outpoint, output));
                proof {
                    assert(kept@.last().0 == entry_outpoint);
                    assert(entry_outpoint.deep_view() != key);
                }
            }
            proof {
                assert(self.utxo@.take(i + 1).drop_last() =~= self.utxo@.take(i as int));
                let prior = utxo_map_of(self.utxo@.take(i as int));
                let entry = self.utxo@[i as int];
                assert(utxo_map_of(self.utxo@.take(i + 1)) == prior.insert(
                    entry.0.deep_view(),
                    entry.1.deep_view(),
                ));
                lemma_insert_remove_step(prior, entry.0.deep_view(), entry.1.deep_view(), key);
                if keep {
                    assert(kept@.drop_last() =~= kept_before);
                    assert(utxo_map_of(kept@) == utxo_map_of(kept_before).insert(
                        entry.0.deep_view(),
                        kept@.last().1.deep_view(),
                    ));
                    assert(kept@.last().1.deep_view() == entry.1.deep_view());
                    assert(entry.0.deep_view() != key);
                    assert(utxo_map_of(kept@) =~= utxo_map_of(self.utxo@.take(i + 1)).remove(key));
                } else {
                    assert(entry.0.deep_view() == key);
                    assert(utxo_map_of(kept@) =~= utxo_map_of(self.utxo@.take(i + 1)).remove(key));
                }
            }
            i = i + 1;
        }
        proof {
            assert(self.utxo@.take(self.utxo@.len() as int) =~= self.utxo@);
        }
        self.utxo = kept;
    }

    /// Adds one freshly created output, replacing any entry under the same
    /// outpoint.
    #[verifier::rlimit(100)]
    fn insert_output(&mut self, outpoint: Outpoint, output: TransactionOutput)
        requires
            old(self).wf(),
        ensures
            final(self).wf(),
            final(self).utxo_map() == old(self).utxo_map().insert(
                outpoint.deep_view(),
                output.deep_view(),
            ),
            final(self).pending_transactions@ == old(self).pending_transactions@,
    {
        self.remove_outpoint(&outpoint);
        let ghost cleaned = self.utxo@;
        self.utxo.push((outpoint, output));
        proof {
            assert(self.utxo@.drop_last() =~= cleaned);
            assert(self.utxo_map() =~= old(self).utxo_map().insert(
                outpoint.deep_view(),
                output.deep_view(),
            ));
        }
    }

    /// Applies one transaction: spends its inputs' outpoints, adds its
    /// outputs under its identifier.
    #[verifier::rlimit(100)]
    fn apply_transaction(&mut self, transaction: &Transaction) -> (r: Result<
        (),
        super::error_block::ErrorBlock,
    >)
        requires
            old(self).wf(),
        ensures
            final(self).wf(),
            final(self).pending_transactions@ == old(self).pending_transactions@,
            r is Ok <==> transaction.tx_out@.len() <= u32::MAX,
            r is Ok ==> final(self).utxo_map() == apply_tx_spec(
                old(self).utxo_map(),
                *transaction,
            ),
            r is Err ==> final(self).utxo_map() == old(self).utxo_map(),
    {
        if transaction.tx_out.len() > u32::MAX as usize {
            return Err(super::error_block::ErrorBlock::CouldNotUpdate);
        }
        let txid_result = transaction.get_tx_id();
        proof {
            assert(txid_result is Ok);
        }
        let txid = match txid_result {
            Ok(txid) => txid,
            Err(error) => {
                return Err(super::error_block::ErrorBlock::CouldNotUpdate);
            },
        };
        let ghost start = self.utxo_map();
        let ghost tview = transaction.deep_view();
        let mut i: usize = 0;
        proof {
            assert(start.remove_keys(spent_prefix(tview, 0)) =~= start) by {
                assert(spent_prefix(tview, 0) =~= Set::<OutpointView>::empty());
            }
        }
        while i < transaction.tx_in.len()
            invariant
                self.wf(),
                tview == transaction.deep_view(),
                self.pending_transactions@ == old(self).pending_transactions@,
                i <= transaction.tx_in@.len(),
                self.utxo_map() == start.remove_keys(spent_prefix(tview, i as int)),
            decreases transaction.tx_in@.len() - i,
        {
            let previous = transaction.tx_in[i].previous_output;
            self.remove_outpoint(&previous);
            proof {
                assert(spent_prefix(tview, i + 1) =~= spent_prefix(tview, i as int).insert(
                    tview.tx_in[i as int].previous_output,
                ));
                assert(start.remove_keys(spent_prefix(tview, i as int)).remove(
                    previous.deep_view(),
                ) =~= start.remove_keys(spent_prefix(tview, i + 1)));
            }
            i = i + 1;
        }
        proof {
            assert(spent_prefix(tview, tview.tx_in.len() as int) =~= tx_spent_keys(tview));
        }
        let ghost removed = self.utxo_map();
        let mut j: usize = 0;
        proof {
            assert(removed.union_prefer_right(created_prefix(txid@, tview.tx_out, 0)) =~= removed)
                by {
                assert(created_prefix(txid@, tview.tx_out, 0) =~= Map::<
                    OutpointView,
                    TransactionOutputView,
                >::empty());
            }
        }
        while j < transaction.tx_out.len()
            invariant
                self.wf(),
                tview == transaction.deep_view(),
                txid@ == sha256d_of(transaction.io_bytes()),
                self.pending_transactions@ == old(self).pending_transactions@,
                j <= transaction.tx_out@.len(),
                transaction.tx_out@.len() <= u32::MAX,
                self.utxo_map() == removed.union_prefer_right(
                    created_prefix(txid@, tview.tx_out, j as int),
                ),
            decreases transaction.tx_out@.len() - j,
        {
            let outpoint = Outpoint::new(txid, j as u32);
            let output = transaction.tx_out[j].clone();
            self.insert_output(outpoint, output);
            proof {
                assert(created_prefix(txid@, tview.tx_out, j + 1) =~= created_prefix(
                    txid@,
                    tview.tx_out,
                    j as int,
                ).insert(outpoint.deep_view(), tview.tx_out[j as int]));
                assert(removed.union_prefer_right(
                    created_prefix(txid@, tview.tx_out, j as int),
                ).insert(outpoint.deep_view(), output.deep_view()) =~= removed.union_prefer_right(
                    created_prefix(txid@, tview.tx_out, j + 1),
                ));
            }
            j = j + 1;
        }
        proof {
            assert(created_prefix(txid@, tview.tx_out, tview.tx_out.len() as int)
                =~= tx_created_map(txid@, tview.tx_out));
        }
        Ok(())
    }

    /// Applies a block: every transaction in order. A block holding a
    /// transaction with too many outputs for 32-bit outpoint indices is
    /// refused whole, leaving the set unchanged.
    pub fn update_utxo_with_block(&mut self, block: &Block) -> (r: Result<
        (),
        super::error_block::ErrorBlock,
    >)
        requires
            old(self).wf(),
        ensures
            final(self).wf(),
            final(self).pending_transactions@ == old(self).pending_transactions@,
            r is Ok <==> block_outputs_fit(*block),
            r is Ok ==> final(self).utxo_map() == apply_block_spec(old(self).utxo_map(), *block),
            r is Err ==> final(self).utxo_map() == old(self).utxo_map(),
    {
        let mut i: usize = 0;
        while i < block.transactions.len()
            invariant
                old(self).wf(),
                *self == *old(self),
                i <= block.transactions@.len(),
                forall|j: int|
                    0 <= j < i ==> (#[trigger] block.transactions@[j]).tx_out@.len() <= u32::MAX,
            decreases block.transactions@.len() - i,
        {
            if block.transactions[i].tx_out.len() > u32::MAX as usize {
                return Err(super::error_block::ErrorBlock::CouldNotUpdate);
            }
            i = i + 1;
        }
        let mut k: usize = 0;
        while k < block.transactions.len()
            invariant
                old(self).wf(),
                self.wf(),
                block_outputs_fit(*block),
                self.pending_transactions@ == old(self).pending_transactions@,
                k <= block.transactions@.len(),
                self.utxo_map() == apply_txs_spec(
                    old(self).utxo_map(),
                    block.transactions@.take(k as int),
                ),
            decreases block.transactions@.len() - k,
        {
            let result = self.apply_transaction(&block.transactions[k]);
            proof {
                assert(result is Ok);
                assert(block.transactions@.take(k + 1).drop_last() =~= block.transactions@.take(
                    k as int,
                ));
            }
            k = k + 1;
        }
        proof {
            assert(block.transactions@.take(block.transactions@.len() as int)
                =~= block.transactions@);
        }
        Ok(())
    }
}


/// The sum of the values of the given outputs.
pub open spec fn sum_values(outs: Seq<(OutpointView, TransactionOutputView)>) -> int
    decreases outs.len(),
{
    if outs.len() == 0 {
        0
    } else {
        sum_values(outs.drop_last()) + outs.last().1.value
    }
}

/// Whether an entry pays to the address with the given 25 address bytes.
pub open spec fn pays_to(entry: (OutpointView, TransactionOutputView), address_bytes: Seq<u8>) -> bool {
    entry.1.pk_script == p2pkh_script(address_bytes.subrange(1, 21))
}

/// The entries that pay the given address, in order.
pub open spec fn owned_entries(
    entries: Seq<(OutpointView, TransactionOutputView)>,
    address_bytes: Seq<u8>,
) -> Seq<(OutpointView, TransactionOutputView)> {
    entries.filter(|p: (OutpointView, TransactionOutputView)| pays_to(p, address_bytes))
}

/// The pending transactions that do not appear among the given block's.
pub open spec fn pending_without(
    pending: Seq<TransactionView>,
    block_transactions: Seq<TransactionView>,
) -> Seq<TransactionView> {
    pending.filter(|t: TransactionView| !block_transactions.contains(t))
}

impl UTXOSet {
    /// Builds the unspent set of a whole chain: every node's block applied
    /// in storage order, blocks with oversized transactions skipped.
    pub fn from_blockchain(chain: &BlockChain) -> (r: UTXOSet)
        ensures
            r.wf(),
            r.pending_transactions@.len() == 0,
            r.utxo_map() == apply_blocks_spec(
                Map::<OutpointView, TransactionOutputView>::empty(),
                chain.blocks@.map_values(|n: super::node_chain::NodeChain| n.block),
            ),
    {
        let ghost all = chain.blocks@.map_values(|n: super::node_chain::NodeChain| n.block);
        let mut out = UTXOSet::new();
        let mut i: usize = 0;
        proof {
            assert(all.take(0) =~= Seq::<Block>::empty());
        }
        while i < chain.blocks.len()
            invariant
                out.wf(),
                out.pending_transactions@.len() == 0,
                all == chain.blocks@.map_values(|n: super::node_chain::NodeChain| n.block),
                i <= chain.blocks@.len(),
                out.utxo_map() == apply_blocks_spec(
                    Map::<OutpointView, TransactionOutputView>::empty(),
                    all.take(i as int),
                ),
            decreases chain.blocks@.len() - i,
        {
            let _ = out.update_utxo_with_block(&chain.blocks[i].block);
            proof {
                assert(all.take(i + 1).drop_last() =~= all.take(i as int));
                assert(all.take(i + 1).last() == chain.blocks@[i as int].block);
            }
            i = i + 1;
        }
        proof {
            assert(all.take(all.len() as int) =~= all);
        }
        out
    }

    /// Whether the given transaction is already waiting for a block.
    pub fn is_transaction_pending(&self, transaction: &Transaction) -> (r: bool)
        ensures
            r == exists|i: int|
                0 <= i < self.pending_transactions@.len()
                    && (#[trigger] self.pending_transactions@[i]).deep_view()
                    == transaction.deep_view(),
    {
        let mut i: usize = 0;
        while i < self.pending_transactions.len()
            invariant
                i <= self.pending_transactions@.len(),
                forall|j: int|
                    0 <= j < i ==> (#[trigger] self.pending_transactions@[j]).deep_view()
                        != transaction.deep_view(),
            decreases self.pending_transactions@.len() - i,
        {
            if &self.pending_transactions[i] == transaction {
                return true;
            }
            i = i + 1;
        }
        false
    }

    /// Remembers a transaction heard of but not yet seen in a block.
    pub fn append_pending_transaction(&mut self, transaction: Transaction)
        ensures
            final(self).utxo@ == old(self).utxo@,
            final(self).pending_transactions@ == old(self).pending_transactions@.push(transaction),
    {
        self.pending_transactions.push(transaction);
    }

    /// Forgets every pending transaction the block confirmed.
    #[verifier::rlimit(100)]
    pub fn remove_pending_in_block(&mut self, block: &Block)
        ensures
            final(self).utxo@ == old(self).utxo@,
            final(self).pending_transactions.deep_view() == old(
                self,
            ).pending_transactions.deep_view().filter(
                |t: TransactionView| !block.transactions.deep_view().contains(t),
            ),
    {
        broadcast use vstd::seq_lib::group_seq_lib_default;

        let ghost block_views = block.transactions.deep_view();
        let ghost pred: spec_fn(TransactionView) -> bool = |t: TransactionView| !block_views.contains(
            t,
        );
        let mut kept: Vec<Transaction> = Vec::new();
        let mut i: usize = 0;
        proof {
            reveal_with_fuel(Seq::<TransactionView>::filter, 2);
            assert(self.pending_transactions@.take(0).map_values(
                |t: Transaction| t.deep_view(),
            ) =~= Seq::<TransactionView>::empty());
            assert(self.pending_transactions@.take(0).map_values(
                |t: Transaction| t.deep_view(),
            ).filter(pred) =~= Seq::<TransactionView>::empty());
            assert(kept.deep_view() =~= Seq::<TransactionView>::empty());
            assert(self.pending_transactions.deep_view() =~= self.pending_transactions@.map_values(
                |t: Transaction| t.deep_view(),
            ));
        }
        while i < self.pending_transactions.len()
            invariant
                self.pending_transactions@ == old(self).pending_transactions@,
                self.utxo@ == old(self).utxo@,
                block_views == block.transactions.deep_view(),
                forall|t: TransactionView| #[trigger] pred(t) == !block_views.contains(t),
                i <= self.pending_transactions@.len(),
                kept.deep_view() == self.pending_transactions@.take(i as int).map_values(
                    |t: Transaction| t.deep_view(),
                ).filter(pred),
            decreases self.pending_transactions@.len() - i,
        {
            let ghost views = kept.deep_view();
            let ghost mapped = self.pending_transactions@.take(i as int).map_values(
                |t: Transaction| t.deep_view(),
            );
            let ghost mapped_next = self.pending_transactions@.take(i + 1).map_values(
                |t: Transaction| t.deep_view(),
            );
            let ghost single = seq![self.pending_transactions@[i as int].deep_view()];
            proof {
                assert(mapped_next =~= mapped + single);
            }
            if !transaction_in_block(&self.pending_transactions[i], block) {
                let kept_one = self.pending_transactions[i].clone();
                kept.push(kept_one);
                proof {
                    reveal_with_fuel(Seq::<TransactionView>::filter, 2);
                    assert(kept.deep_view() =~= views.push(
                        self.pending_transactions@[i as int].deep_view(),
                    ));
                    assert(single.drop_last() =~= Seq::<TransactionView>::empty());
                    assert(pred(self.pending_transactions@[i as int].deep_view()));
                    assert(single.filter(pred) =~= single);
                    assert(kept.deep_view() =~= mapped.filter(pred) + single.filter(pred));
                    assert(kept.deep_view() =~= mapped_next.filter(pred));
                }
            } else {
                proof {
                    reveal_with_fuel(Seq::<TransactionView>::filter, 2);
                    assert(single.drop_last() =~= Seq::<TransactionView>::empty());
                    assert(!pred(self.pending_transactions@[i as int].deep_view()));
                    assert(single.filter(pred) =~= Seq::<TransactionView>::empty());
                    assert(kept.deep_view() =~= mapped.filter(pred) + single.filter(pred));
                    assert(kept.deep_view() =~= mapped_next.filter(pred));
                }
            }
            i = i + 1;
        }
        proof {
            assert(self.pending_transactions@.take(self.pending_transactions@.len() as int)
                =~= self.pending_transactions@);
        }
        self.pending_transactions = kept;
        proof {
            assert(old(self).pending_transactions.deep_view() =~= old(
                self,
            ).pending_transactions@.map_values(|t: Transaction| t.deep_view()));
        }
    }

    /// The unspent entries, restricted to those paying the given address
    /// when one is named.
    #[verifier::rlimit(100)]
    pub fn get_utxo_list_with_outpoints(&self, address: Option<&Address>) -> (r: Vec<
        (Outpoint, TransactionOutput),
    >)
        ensures
            r.deep_view() == (match address {
                Some(a) => owned_entries(self.utxo.deep_view(), a.address_bytes@),
                None => self.utxo.deep_view(),
            }),
    {
        broadcast use vstd::seq_lib::group_seq_lib_default;

        let mut out: Vec<(Outpoint, TransactionOutput)> = Vec::new();
        let mut i: usize = 0;
        proof {
            reveal_with_fuel(Seq::<(OutpointView, TransactionOutputView)>::filter, 2);
            assert(out.deep_view() =~= Seq::<(OutpointView, TransactionOutputView)>::empty());
            if address is Some {
                let a = address.unwrap();
                assert(self.utxo@.take(0).map_values(
                    |p: (Outpoint, TransactionOutput)| p.deep_view(),
                ) =~= Seq::<(OutpointView, TransactionOutputView)>::empty());
                assert(owned_entries(
                    self.utxo@.take(0).map_values(|p: (Outpoint, TransactionOutput)| p.deep_view()),
                    a.address_bytes@,
                ) =~= Seq::<(OutpointView, TransactionOutputView)>::empty());
            } else {
                assert(self.utxo@.take(0).map_values(
                    |p: (Outpoint, TransactionOutput)| p.deep_view(),
                ) =~= Seq::<(OutpointView, TransactionOutputView)>::empty());
            }
            assert(self.utxo.deep_view() =~= self.utxo@.map_values(
                |p: (Outpoint, TransactionOutput)| p.deep_view(),
            ));
        }
        while i < self.utxo.len()
            invariant
                i <= self.utxo@.len(),
                out.deep_view() == (match address {
                    Some(a) => owned_entries(
                        self.utxo@.take(i as int).map_values(
                            |p: (Outpoint, TransactionOutput)| p.deep_view(),
                        ),
                        a.address_bytes@,
                    ),
                    None => self.utxo@.take(i as int).map_values(
                        |p: (Outpoint, TransactionOutput)| p.deep_view(),
                    ),
                }),
            decreases self.utxo@.len() - i,
        {
            let ghost views = out.deep_view();
            proof {
                let mapped = self.utxo@.take(i as int).map_values(
                    |p: (Outpoint, TransactionOutput)| p.deep_view(),
                );
                let mapped_next = self.utxo@.take(i + 1).map_values(
                    |p: (Outpoint, TransactionOutput)| p.deep_view(),
                );
                let single = seq![self.utxo@[i as int].deep_view()];
                assert(mapped_next =~= mapped + single);
                if address is Some {
                    reveal_with_fuel(
                        Seq::<(OutpointView, TransactionOutputView)>::filter,
                        2,
                    );
                    assert(single.drop_last() =~= Seq::<
                        (OutpointView, TransactionOutputView),
                    >::empty());
                }
            }
            let keep = match address {
                Some(a) => a.verify_transaction_ownership(&self.utxo[i].1),
                None => true,
            };
            if keep {
                let entry = (self.utxo[i].0, self.utxo[i].1.clone());
                out.push(entry);
                proof {
                    assert(out.deep_view() =~= views.push(self.utxo@[i as int].deep_view()));
                }
            }
            i = i + 1;
        }
        proof {
            assert(self.utxo@.take(self.utxo@.len() as int) =~= self.utxo@);
        }
        out
    }

    /// The balance an address owns: the sum of the values of its unspent
    /// outputs. The caller vouches that the sum fits a 64-bit amount.
    #[verifier::rlimit(100)]
    pub fn get_balance_in_satoshis(&self, address: &Address) -> (r: i64)
        requires
            i64::MIN <= sum_values(owned_entries(self.utxo.deep_view(), address.address_bytes@))
                <= i64::MAX,
        ensures
            r == sum_values(owned_entries(self.utxo.deep_view(), address.address_bytes@)),
    {
        let owned = self.get_utxo_list_with_outpoints(Some(address));
        let mut total: i128 = 0;
        let mut i: usize = 0;
        proof {
            assert(owned.deep_view().take(0) =~= Seq::<
                (OutpointView, TransactionOutputView),
            >::empty());
        }
        while i < owned.len()
            invariant
                i <= owned@.len(),
                owned@.len() == owned.deep_view().len(),
                total == sum_values(owned.deep_view().take(i as int)),
                (i as int) * (i64::MIN as int) <= total <= (i as int) * (i64::MAX as int),
            decreases owned@.len() - i,
        {
            proof {
                assert(owned.deep_view().take(i + 1).drop_last() =~= owned.deep_view().take(
                    i as int,
                ));
                assert(owned.deep_view()[i as int] == owned@[i as int].deep_view());
            }
            total = total + (owned[i].1.value as i128);
            i = i + 1;
        }
        proof {
            assert(owned.deep_view().take(owned.deep_view().len() as int) =~= owned.deep_view());
        }
        total as i64
    }
}

/// Whether the block holds the given transaction.
pub fn transaction_in_block(transaction: &Transaction, block: &Block) -> (r: bool)
    ensures
        r == block.transactions.deep_view().contains(transaction.deep_view()),
{
    let mut i: usize = 0;
    while i < block.transactions.len()
        invariant
            i <= block.transactions@.len(),
            forall|j: int|
                0 <= j < i ==> (#[trigger] block.transactions@[j]).deep_view()
                    != transaction.deep_view(),
        decreases block.transactions@.len() - i,
    {
        if &block.transactions[i] == transaction {
            proof {
                assert(block.transactions.deep_view()[i as int] == transaction.deep_view());
            }
            return true;
        }
        i = i + 1;
    }
    proof {
        assert(forall|j: int|
            0 <= j < block.transactions.deep_view().len()
                ==> block.transactions.deep_view()[j] != transaction.deep_view());
    }
    false
}

/// Filtering by "not in the block" is the same function whichever closure
/// names it, since both test the same block transaction views.
proof fn lemma_pending_without_same(
    pending: Seq<TransactionView>,
    block_views: Seq<TransactionView>,
    pred: spec_fn(TransactionView) -> bool,
)
    requires
        forall|t: TransactionView| #[trigger] pred(t) == !block_views.contains(t),
    ensures
        pending.filter(pred) == pending_without(pending, block_views),
    decreases pending.len(),
{
    reveal_with_fuel(Seq::<TransactionView>::filter, 1);
    if pending.len() > 0 {
        lemma_pending_without_same(pending.drop_last(), block_views, pred);
    }
}

/// The outpoints spent by the first `count` inputs.
pub open spec fn spent_prefix(t: TransactionView, count: int) -> Set<OutpointView> {
    Set::new(
        |key: OutpointView| exists|i: int| 0 <= i < count && i < t.tx_in.len() && t.tx_in[i].previous_output == key,
    )
}

/// The outputs created by the first `count` outputs of a transaction with
/// identifier `txid`.
pub open spec fn created_prefix(txid: Seq<u8>, outs: Seq<TransactionOutputView>, count: int) -> Map<
    OutpointView,
    TransactionOutputView,
> {
    Map::new(
        |key: OutpointView| key.hash == txid && 0 <= key.index < count && key.index < outs.len(),
        |key: OutpointView| outs[key.index as int],
    )
}

/// Removing a key from a map right after an insert either cancels the
/// insert or commutes with it.
proof fn lemma_insert_remove_step(
    prior: Map<OutpointView, TransactionOutputView>,
    entry_key: OutpointView,
    entry_value: TransactionOutputView,
    key: OutpointView,
)
    ensures
        entry_key == key ==> prior.insert(entry_key, entry_value).remove(key) =~= prior.remove(
            key,
        ),
        entry_key != key ==> prior.insert(entry_key, entry_value).remove(key) =~= prior.remove(
            key,
        ).insert(entry_key, entry_value),
{
}

/// An entry of a duplicate-free list is in its map, at its value.
pub proof fn lemma_utxo_map_of_index(entries: Seq<(Outpoint, TransactionOutput)>, i: int)
    requires
        0 <= i < entries.len(),
        forall|a: int, b: int|
            0 <= a < b < entries.len() ==> (#[trigger] entries[a]).0.deep_view() != (
            #[trigger] entries[b]).0.deep_view(),
    ensures
        utxo_map_of(entries).contains_key(entries[i].0.deep_view()),
        utxo_map_of(entries)[entries[i].0.deep_view()] == entries[i].1.deep_view(),
    decreases entries.len(),
{
    if i < entries.len() - 1 {
        lemma_utxo_map_of_index(entries.drop_last(), i);
    }
}

/// A key no entry holds is not in the map.
pub proof fn lemma_utxo_map_of_absent(entries: Seq<(Outpoint, TransactionOutput)>, key: OutpointView)
    requires
        forall|j: int| 0 <= j < entries.len() ==> (#[trigger] entries[j]).0.deep_view() != key,
    ensures
        !utxo_map_of(entries).contains_key(key),
    decreases entries.len(),
{
    if entries.len() > 0 {
        lemma_utxo_map_of_absent(entries.drop_last(), key);
    }
}

/// Applying a transaction makes every one of its outputs reachable at its
/// fresh outpoint, and removes every outpoint its inputs spent, unless the
/// transaction itself recreated that outpoint.
pub proof fn lemma_apply_transaction_lookup(
    m: Map<OutpointView, TransactionOutputView>,
    t: Transaction,
)
    ensures
        forall|j: int|
            0 <= j < t.deep_view().tx_out.len() && j <= u32::MAX ==> {
                let key = OutpointView { hash: sha256d_of(t.io_bytes()), index: j as u32 };
                apply_tx_spec(m, t).contains_key(key) && apply_tx_spec(m, t)[key] == (
                #[trigger] t.deep_view().tx_out[j])
            },
        forall|i: int|
            0 <= i < t.deep_view().tx_in.len() ==> {
                let key = (#[trigger] t.deep_view().tx_in[i]).previous_output;
                !(key.hash == sha256d_of(t.io_bytes()) && key.index < t.deep_view().tx_out.len())
                    ==> !apply_tx_spec(m, t).contains_key(key)
            },
{
    let txid = sha256d_of(t.io_bytes());
    let tview = t.deep_view();
    assert forall|j: int|
        #![trigger tview.tx_out[j]]
        0 <= j < tview.tx_out.len() && j <= u32::MAX implies {
        let key = OutpointView { hash: txid, index: j as u32 };
        apply_tx_spec(m, t).contains_key(key) && apply_tx_spec(m, t)[key] == tview.tx_out[j]
    } by {
        let key = OutpointView { hash: txid, index: j as u32 };
        assert(tx_created_map(txid, tview.tx_out).contains_key(key));
        assert(tx_created_map(txid, tview.tx_out)[key] == tview.tx_out[j]);
    }
}

/// Whether some input of some transaction of some block spends the outpoint.
pub open spec fn outpoint_spent_in(blocks: Seq<Block>, key: OutpointView) -> bool {
    exists|b: int, t: int, i: int|
        0 <= b < blocks.len() && 0 <= t < blocks[b].transactions@.len() && 0 <= i
            < blocks[b].transactions@[t].deep_view().tx_in.len() && (
        #[trigger] blocks[b].transactions@[t].deep_view().tx_in[i]).previous_output == key
}

/// Whether the transaction's identifier and output count reach the outpoint.
pub open spec fn outpoint_created_by(t: Transaction, key: OutpointView) -> bool {
    key.hash == sha256d_of(t.io_bytes()) && key.index < t.deep_view().tx_out.len()
}

/// Whether some transaction of some block creates the outpoint.
pub open spec fn outpoint_created_in(blocks: Seq<Block>, key: OutpointView) -> bool {
    exists|b: int, t: int|
        0 <= b < blocks.len() && 0 <= t < blocks[b].transactions@.len() && outpoint_created_by(
            #[trigger] blocks[b].transactions@[t],
            key,
        )
}

/// A transaction that does not spend the outpoint keeps it reachable.
proof fn lemma_apply_tx_keeps(m: Map<OutpointView, TransactionOutputView>, t: Transaction, key: OutpointView)
    requires
        m.contains_key(key),
        forall|i: int|
            0 <= i < t.deep_view().tx_in.len() ==> (#[trigger] t.deep_view().tx_in[i]).previous_output
                != key,
    ensures
        apply_tx_spec(m, t).contains_key(key),
{
    assert(!tx_spent_keys(t.deep_view()).contains(key));
}

/// Transactions none of which spend the outpoint keep it reachable.
proof fn lemma_apply_txs_keep(
    m: Map<OutpointView, TransactionOutputView>,
    txs: Seq<Transaction>,
    key: OutpointView,
)
    requires
        m.contains_key(key),
        forall|t: int, i: int|
            0 <= t < txs.len() && 0 <= i < txs[t].deep_view().tx_in.len() ==> (
            #[trigger] txs[t].deep_view().tx_in[i]).previous_output != key,
    ensures
        apply_txs_spec(m, txs).contains_key(key),
    decreases txs.len(),
{
    if txs.len() > 0 {
        lemma_apply_txs_keep(m, txs.drop_last(), key);
        lemma_apply_tx_keeps(apply_txs_spec(m, txs.drop_last()), txs.last(), key);
    }
}

/// A run of transactions none of which spend the outpoint, one of which
/// creates it, leaves it reachable.
proof fn lemma_txs_output_found(
    m: Map<OutpointView, TransactionOutputView>,
    txs: Seq<Transaction>,
    t_index: int,
    j: int,
)
    requires
        0 <= t_index < txs.len(),
        0 <= j < txs[t_index].deep_view().tx_out.len(),
        j <= u32::MAX,
        forall|t: int, i: int|
            0 <= t < txs.len() && 0 <= i < txs[t].deep_view().tx_in.len() ==> (
            #[trigger] txs[t].deep_view().tx_in[i]).previous_output != (OutpointView {
                hash: sha256d_of(txs[t_index].io_bytes()),
                index: j as u32,
            }),
    ensures
        apply_txs_spec(m, txs).contains_key(
            OutpointView { hash: sha256d_of(txs[t_index].io_bytes()), index: j as u32 },
        ),
    decreases txs.len(),
{
    let key = OutpointView { hash: sha256d_of(txs[t_index].io_bytes()), index: j as u32 };
    if t_index == txs.len() - 1 {
        lemma_apply_transaction_lookup(apply_txs_spec(m, txs.drop_last()), txs.last());
        assert(txs[t_index] == txs.last());
    } else {
        lemma_txs_output_found(m, txs.drop_last(), t_index, j);
        assert(txs.drop_last()[t_index] == txs[t_index]);
        lemma_apply_tx_keeps(apply_txs_spec(m, txs.drop_last()), txs.last(), key);
    }
}

/// An output created inside an applied block, whose outpoint no input of
/// any of the blocks spends, can be looked up after the blocks are folded
/// into the unspent map.
pub proof fn lemma_unspent_output_found(
    m: Map<OutpointView, TransactionOutputView>,
    blocks: Seq<Block>,
    b: int,
    t: int,
    j: int,
)
    requires
        0 <= b < blocks.len(),
        block_outputs_fit(blocks[b]),
        0 <= t < blocks[b].transactions@.len(),
        0 <= j < blocks[b].transactions@[t].deep_view().tx_out.len(),
        !outpoint_spent_in(
            blocks,
            OutpointView {
                hash: sha256d_of(blocks[b].transactions@[t].io_bytes()),
                index: j as u32,
            },
        ),
    ensures
        apply_blocks_spec(m, blocks).contains_key(
            OutpointView {
                hash: sha256d_of(blocks[b].transactions@[t].io_bytes()),
                index: j as u32,
            },
        ),
    decreases blocks.len(),
{
    let key = OutpointView {
        hash: sha256d_of(blocks[b].transactions@[t].io_bytes()),
        index: j as u32,
    };
    assert(blocks[b].transactions@[t].deep_view().tx_out.len() == blocks[
    b].transactions@[t].tx_out@.len());
    assert(j <= u32::MAX);
    if b == blocks.len() - 1 {
        assert(blocks.last() == blocks[b]);
        assert forall|tt: int, i: int|
            0 <= tt < blocks[b].transactions@.len() && 0 <= i
                < blocks[b].transactions@[tt].deep_view().tx_in.len() implies (
        #[trigger] blocks[b].transactions@[tt].deep_view().tx_in[i]).previous_output != key by {
            if blocks[b].transactions@[tt].deep_view().tx_in[i].previous_output == key {
                assert(outpoint_spent_in(blocks, key));
            }
        }
        lemma_txs_output_found(
            apply_blocks_spec(m, blocks.drop_last()),
            blocks[b].transactions@,
            t,
            j,
        );
    } else {
        assert forall|bb: int, tt: int, i: int|
            0 <= bb < blocks.drop_last().len() && 0 <= tt
                < blocks.drop_last()[bb].transactions@.len() && 0 <= i
                < blocks.drop_last()[bb].transactions@[tt].deep_view().tx_in.len() implies (
        #[trigger] blocks.drop_last()[bb].transactions@[tt].deep_view().tx_in[
        i]).previous_output != key by {
            if blocks.drop_last()[bb].transactions@[tt].deep_view().tx_in[i].previous_output
                == key {
                assert(blocks[bb] == blocks.drop_last()[bb]);
                assert(outpoint_spent_in(blocks, key));
            }
        }
        assert(blocks.drop_last()[b] == blocks[b]);
        assert(!outpoint_spent_in(blocks.drop_last(), key)) by {
            if outpoint_spent_in(blocks.drop_last(), key) {
                let (bb, tt, i) = choose|bb: int, tt: int, i: int|
                    0 <= bb < blocks.drop_last().len() && 0 <= tt
                        < blocks.drop_last()[bb].transactions@.len() && 0 <= i
                        < blocks.drop_last()[bb].transactions@[tt].deep_view().tx_in.len() && (
                    #[trigger] blocks.drop_last()[bb].transactions@[tt].deep_view().tx_in[
                    i]).previous_output == key;
                assert(blocks[bb] == blocks.drop_last()[bb]);
                assert(outpoint_spent_in(blocks, key));
            }
        }
        lemma_unspent_output_found(m, blocks.drop_last(), b, t, j);
        if block_outputs_fit(blocks.last()) {
            assert forall|tt: int, i: int|
                0 <= tt < blocks.last().transactions@.len() && 0 <= i
                    < blocks.last().transactions@[tt].deep_view().tx_in.len() implies (
            #[trigger] blocks.last().transactions@[tt].deep_view().tx_in[
            i]).previous_output != key by {
                if blocks.last().transactions@[tt].deep_view().tx_in[i].previous_output == key {
                    assert(blocks[blocks.len() - 1] == blocks.last());
                    assert(outpoint_spent_in(blocks, key));
                }
            }
            lemma_apply_txs_keep(
                apply_blocks_spec(m, blocks.drop_last()),
                blocks.last().transactions@,
                key,
            );
        }
    }
}

/// A transaction that does not create the outpoint cannot make it
/// reachable.
proof fn lemma_apply_tx_keeps_absent(
    m: Map<OutpointView, TransactionOutputView>,
    t: Transaction,
    key: OutpointView,
)
    requires
        !m.contains_key(key),
        !outpoint_created_by(t, key),
    ensures
        !apply_tx_spec(m, t).contains_key(key),
{
    assert(!tx_created_map(sha256d_of(t.io_bytes()), t.deep_view().tx_out).contains_key(key));
}

/// Transactions none of which create the outpoint keep it unreachable; and
/// one that spends it makes it unreachable.
proof fn lemma_apply_txs_keep_absent(
    m: Map<OutpointView, TransactionOutputView>,
    txs: Seq<Transaction>,
    key: OutpointView,
)
    requires
        !m.contains_key(key),
        forall|t: int| 0 <= t < txs.len() ==> !outpoint_created_by(#[trigger] txs[t], key),
    ensures
        !apply_txs_spec(m, txs).contains_key(key),
    decreases txs.len(),
{
    if txs.len() > 0 {
        lemma_apply_txs_keep_absent(m, txs.drop_last(), key);
        lemma_apply_tx_keeps_absent(apply_txs_spec(m, txs.drop_last()), txs.last(), key);
    }
}

/// A spend inside a run of transactions none of which create the outpoint
/// leaves it unreachable.
proof fn lemma_txs_spend_removes(
    m: Map<OutpointView, TransactionOutputView>,
    txs: Seq<Transaction>,
    t_index: int,
    i: int,
    key: OutpointView,
)
    requires
        0 <= t_index < txs.len(),
        0 <= i < txs[t_index].deep_view().tx_in.len(),
        txs[t_index].deep_view().tx_in[i].previous_output == key,
        forall|t: int| 0 <= t < txs.len() ==> !outpoint_created_by(#[trigger] txs[t], key),
    ensures
        !apply_txs_spec(m, txs).contains_key(key),
    decreases txs.len(),
{
    if t_index == txs.len() - 1 {
        assert(txs[t_index] == txs.last());
        assert(tx_spent_keys(txs.last().deep_view()).contains(key));
        assert(!tx_created_map(
            sha256d_of(txs.last().io_bytes()),
            txs.last().deep_view().tx_out,
        ).contains_key(key));
    } else {
        lemma_txs_spend_removes(m, txs.drop_last(), t_index, i, key);
        assert(txs.drop_last()[t_index] == txs[t_index]);
        lemma_apply_tx_keeps_absent(apply_txs_spec(m, txs.drop_last()), txs.last(), key);
    }
}

/// An outpoint some applied block spends, which no transaction of any block
/// creates, cannot be looked up after the blocks are folded into the
/// unspent map.
pub proof fn lemma_spent_outpoint_absent(
    m: Map<OutpointView, TransactionOutputView>,
    blocks: Seq<Block>,
    b: int,
    t: int,
    i: int,
    key: OutpointView,
)
    requires
        0 <= b < blocks.len(),
        block_outputs_fit(blocks[b]),
        0 <= t < blocks[b].transactions@.len(),
        0 <= i < blocks[b].transactions@[t].deep_view().tx_in.len(),
        blocks[b].transactions@[t].deep_view().tx_in[i].previous_output == key,
        !outpoint_created_in(blocks, key),
    ensures
        !apply_blocks_spec(m, blocks).contains_key(key),
    decreases blocks.len(),
{
    assert forall|bb: int, tt: int|
        0 <= bb < blocks.len() && 0 <= tt < blocks[bb].transactions@.len() implies
        !outpoint_created_by(#[trigger] blocks[bb].transactions@[tt], key) by {
        if outpoint_created_by(blocks[bb].transactions@[tt], key) {
            assert(outpoint_created_in(blocks, key));
        }
    }
    if b == blocks.len() - 1 {
        assert(blocks.last() == blocks[b]);
        lemma_txs_spend_removes(
            apply_blocks_spec(m, blocks.drop_last()),
            blocks[b].transactions@,
            t,
            i,
            key,
        );
    } else {
        assert(blocks.drop_last()[b] == blocks[b]);
        assert(!outpoint_created_in(blocks.drop_last(), key)) by {
            if outpoint_created_in(blocks.drop_last(), key) {
                let (bb, tt) = choose|bb: int, tt: int|
                    0 <= bb < blocks.drop_last().len() && 0 <= tt
                        < blocks.drop_last()[bb].transactions@.len() && outpoint_created_by(
                        #[trigger] blocks.drop_last()[bb].transactions@[tt],
                        key,
                    );
                assert(blocks[bb] == blocks.drop_last()[bb]);
                assert(outpoint_created_in(blocks, key));
            }
        }
        lemma_spent_outpoint_absent(m, blocks.drop_last(), b, t, i, key);
        if block_outputs_fit(blocks.last()) {
            lemma_apply_txs_keep_absent(
                apply_blocks_spec(m, blocks.drop_last()),
                blocks.last().transactions@,
                key,
            );
        }
    }
}

} // verus!
