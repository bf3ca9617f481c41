use vstd::prelude::*;

use crate::block_structure::block::Block;
use crate::block_structure::block_chain::{chain_has_header, BlockChain};
use crate::block_structure::transaction::{Transaction, TransactionView};
use crate::block_structure::utxo_set::{apply_block_spec, block_outputs_fit, UTXOSet};
use crate::wallet_structure::account::Account;
use crate::wallet_structure::address::p2pkh_script;

verus! {

/// Whether some output of the transaction pays the account's address.
pub open spec fn account_owns_transaction(account: Account, transaction: Transaction) -> bool {
    exists|i: int|
        0 <= i < transaction.tx_out@.len() && (#[trigger] transaction.tx_out@[i]).pk_script@
            == p2pkh_script(account.address.address_bytes@.subrange(1, 21))
}

/// One incoming transaction, handled as the chain updater does: a pending
/// duplicate is dropped; otherwise the owning accounts are collected and,
/// when any owns it, the transaction joins the pending list. The indices of
/// the owning accounts come back, in order, for the caller to notify.
pub fn receive_transaction(
    utxo_set: &mut UTXOSet,
    accounts: &Vec<Account>,
    transaction: Transaction,
) -> (r: Vec<usize>)
    ensures
        final(utxo_set).utxo@ == old(utxo_set).utxo@,
        ((exists|i: int|
            0 <= i < old(utxo_set).pending_transactions@.len() && (#[trigger] old(
                utxo_set,
            ).pending_transactions@[i]).deep_view() == transaction.deep_view())
            ==> *final(utxo_set) == *old(utxo_set) && r@.len() == 0),
        (!(exists|i: int|
            0 <= i < old(utxo_set).pending_transactions@.len() && (#[trigger] old(
                utxo_set,
            ).pending_transactions@[i]).deep_view() == transaction.deep_view()) ==> {
            &&& (forall|k: int|
                0 <= k < r@.len() ==> (#[trigger] r@[k]) < accounts@.len()
                    && account_owns_transaction(accounts@[r@[k] as int], transaction))
            &&& (forall|k: int, l: int| 0 <= k < l < r@.len() ==> r@[k] < r@[l])
            &&& (forall|j: int|
                0 <= j < accounts@.len() && account_owns_transaction(
                    #[trigger] accounts@[j],
                    transaction,
                ) ==> r@.contains(j as usize))
            &&& (r@.len() > 0 ==> final(utxo_set).pending_transactions@ == old(
                utxo_set,
            ).pending_transactions@.push(transaction))
            &&& (r@.len() == 0 ==> *final(utxo_set) == *old(utxo_set))
        }),
{
    if utxo_set.is_transaction_pending(&transaction) {
        return Vec::new();
    }
    let mut owners: Vec<usize> = Vec::new();
    let mut j: usize = 0;
    while j < accounts.len()
        invariant
            j <= accounts@.len(),
            forall|k: int|
                0 <= k < owners@.len() ==> (#[trigger] owners@[k]) < j
                    && account_owns_transaction(accounts@[owners@[k] as int], transaction),
            forall|k: int, l: int| 0 <= k < l < owners@.len() ==> owners@[k] < owners@[l],
            forall|m: int|
                0 <= m < j && account_owns_transaction(#[trigger] accounts@[m], transaction)
                    ==> owners@.contains(m as usize),
        decreases accounts@.len() - j,
    {
        if accounts[j].verify_transaction_ownership(&transaction) {
            let ghost before = owners@;
            owners.push(j);
            proof {
                assert forall|m: int|
                    0 <= m < j + 1 && account_owns_transaction(
                        #[trigger] accounts@[m],
                        transaction,
                    ) implies owners@.contains(m as usize) by {
                    if m < j {
                        let k = choose|k: int|
                            0 <= k < before.len() && before[k] == m as usize;
                        assert(owners@[k] == m as usize);
                    } else {
                        assert(owners@[owners@.len() - 1] == m as usize);
                    }
                }
            }
        } else {
            proof {
                assert forall|m: int|
                    0 <= m < j + 1 && account_owns_transaction(
                        #[trigger] accounts@[m],
                        transaction,
                    ) implies owners@.contains(m as usize) by {
                    if m < j {
                        let k = choose|k: int|
                            0 <= k < owners@.len() && owners@[k] == m as usize;
                        assert(owners@[k] == m as usize);
                    }
                }
            }
        }
        j = j + 1;
    }
    if owners.len() > 0 {
        utxo_set.append_pending_transaction(transaction);
    }
    owners
}

/// The unspent map, the pending list and the promoted count after the given
/// blocks were offered in order: a block whose header the chain holds and
/// whose outputs all fit is applied to the map and clears its transactions
/// from pending; any other block changes nothing.
pub open spec fn apply_promoted(
    chain: Seq<crate::block_structure::node_chain::NodeChain>,
    utxo: Map<
        crate::block_structure::outpoint::OutpointView,
        crate::block_structure::transaction_output::TransactionOutputView,
    >,
    pending: Seq<TransactionView>,
    blocks: Seq<Block>,
) -> (Map<
    crate::block_structure::outpoint::OutpointView,
    crate::block_structure::transaction_output::TransactionOutputView,
>, Seq<TransactionView>, int)
    decreases blocks.len(),
{
    if blocks.len() == 0 {
        (utxo, pending, 0)
    } else {
        let rest = apply_promoted(chain, utxo, pending, blocks.drop_last());
        let block = blocks.last();
        if chain_has_header(chain, block.header) && block_outputs_fit(block) {
            (
                apply_block_spec(rest.0, block),
                rest.1.filter(|t: TransactionView| !block.transactions.deep_view().contains(t)),
                rest.2 + 1,
            )
        } else {
            rest
        }
    }
}

/// Promotes each block the chain already knows by header: the matching
/// header-only node takes the full block, the unspent map absorbs it, and
/// its transactions leave the pending list. Blocks with unknown headers or
/// overflowing outputs are dropped and processing continues. The count of
/// promoted blocks comes back, for the caller's progress notifications.
#[verifier::rlimit(100)]
pub fn update_chain_with_blocks(
    block_chain: &mut BlockChain,
    utxo_set: &mut UTXOSet,
    blocks: &Vec<Block>,
) -> (r: u32)
    requires
        old(block_chain).wf(),
        old(utxo_set).wf(),
        blocks@.len() <= u32::MAX,
    ensures
        final(block_chain).wf(),
        final(utxo_set).wf(),
        ({
            let folded = apply_promoted(
                old(block_chain).blocks@,
                old(utxo_set).utxo_map(),
                old(utxo_set).pending_transactions.deep_view(),
                blocks@,
            );
            &&& final(utxo_set).utxo_map() == folded.0
            &&& final(utxo_set).pending_transactions.deep_view() == folded.1
            &&& r as int == folded.2
        }),
        final(block_chain).blocks@.len() == old(block_chain).blocks@.len(),
        final(block_chain).last_blocks@ == old(block_chain).last_blocks@,
        forall|k: int|
            0 <= k < final(block_chain).blocks@.len()
                ==> (#[trigger] final(block_chain).blocks@[k]).block.header.deep_view()
                == old(block_chain).blocks@[k].block.header.deep_view(),
{
    let mut count: u32 = 0;
    let mut i: usize = 0;
    proof {
        assert(blocks@.take(0) =~= Seq::<Block>::empty());
    }
    while i < blocks.len()
        invariant
            block_chain.wf(),
            utxo_set.wf(),
            i <= blocks@.len() <= u32::MAX,
            block_chain.blocks@.len() == old(block_chain).blocks@.len(),
            block_chain.last_blocks@ == old(block_chain).last_blocks@,
            forall|k: int|
                0 <= k < block_chain.blocks@.len() ==> (#[trigger] block_chain.blocks@[
                k]).block.header.deep_view() == old(
                    block_chain,
                ).blocks@[k].block.header.deep_view(),
            ({
                let folded = apply_promoted(
                    old(block_chain).blocks@,
                    old(utxo_set).utxo_map(),
                    old(utxo_set).pending_transactions.deep_view(),
                    blocks@.take(i as int),
                );
                &&& utxo_set.utxo_map() == folded.0
                &&& utxo_set.pending_transactions.deep_view() == folded.1
                &&& count as int == folded.2
            }),
            count <= i,
        decreases blocks@.len() - i,
    {
        proof {
            assert(blocks@.take(i + 1).drop_last() =~= blocks@.take(i as int));
            assert(blocks@.take(i + 1).last() == blocks@[i as int]);
        }
        let known = block_chain.knows_header(&blocks[i]);
        proof {
            assert(chain_has_header(block_chain.blocks@, blocks@[i as int].header)
                == chain_has_header(old(block_chain).blocks@, blocks@[i as int].header)) by {
                if chain_has_header(block_chain.blocks@, blocks@[i as int].header) {
                    let w = choose|w: int|
                        0 <= w < block_chain.blocks@.len()
                            && block_chain.blocks@[w].block.header.deep_view()
                            == blocks@[i as int].header.deep_view();
                    assert(old(block_chain).blocks@[w].block.header.deep_view()
                        == blocks@[i as int].header.deep_view());
                }
                if chain_has_header(old(block_chain).blocks@, blocks@[i as int].header) {
                    let w = choose|w: int|
                        0 <= w < old(block_chain).blocks@.len() && old(
                            block_chain,
                        ).blocks@[w].block.header.deep_view()
                            == blocks@[i as int].header.deep_view();
                    assert(block_chain.blocks@[w].block.header.deep_view()
                        == blocks@[i as int].header.deep_view());
                }
            }
        }
        if known {
            let applied = utxo_set.update_utxo_with_block(&blocks[i]);
            if applied.is_ok() {
                utxo_set.remove_pending_in_block(&blocks[i]);
                let replaced = block_chain.update_block(blocks[i].clone());
                proof {
                    assert(replaced is Ok);
                }
                count = count + 1;
            }
        }
        i = i + 1;
    }
    proof {
        assert(blocks@.take(blocks@.len() as int) =~= blocks@);
    }
    count
}

} // verus!
