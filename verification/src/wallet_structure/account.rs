use vstd::prelude::*;

use super::address::{p2pkh_script, Address};
use super::error_wallet::ErrorWallet;
use super::private_key::{PrivateKey, PrivateKeyType};
use super::public_key::{PublicKey, PublicKeyType};
use crate::block_structure::outpoint::{Outpoint, OutpointView};
use crate::block_structure::transaction::Transaction;
use crate::block_structure::transaction_output::{TransactionOutput, TransactionOutputView};
use crate::block_structure::utxo_set::{owned_entries, pays_to, sum_values, UTXOSet};

verus! {

broadcast use {vstd::seq_lib::group_seq_lib_default, vstd::seq::Seq::lemma_filter_contains_rev};

/// One wallet account: a name, a key pair and the derived testnet address.
#[derive(Debug, Clone)]
pub struct Account {
    pub account_name: String,
    pub private_key: PrivateKey,
    pub public_key: PublicKey,
    pub address: Address,
}

impl Account {
    /// The account hangs together: the private key was accepted by the
    /// curve library, the stored public key is the one that private key
    /// derives, and the address is the one that public key derives.
    pub open spec fn wf(&self) -> bool {
        &&& self.private_key.wf()
        &&& self.public_key.bytes@ == super::private_key::secp_public_key_of(
            self.private_key.key_bytes@,
        )
        &&& self.address.address_bytes@ == super::address::address_bytes_of(
            crate::block_structure::hash::hash160_of(self.public_key.bytes@),
        )
    }

    /// Builds an account from its parts; bad key bytes, bad address text, a
    /// public key that is not the private key's, or an address that is not
    /// the public key's are refused.
    pub fn new(
        name: &str,
        private_key_bytes: &PrivateKeyType,
        public_key_bytes: &PublicKeyType,
        address: &str,
    ) -> (r: Result<Account, ErrorWallet>)
        ensures
            (r is Ok <==> {
                &&& super::private_key::secp_key_valid(private_key_bytes@)
                &&& public_key_bytes@ == super::private_key::secp_public_key_of(
                    private_key_bytes@,
                )
                &&& address@.len() == 34
                &&& (exists|b: Seq<u8>|
                    address@ == #[trigger] super::address::base58_of(b) && b.len() == 25)
                &&& address@ == super::address::base58_of(
                    super::address::address_bytes_of(
                        crate::block_structure::hash::hash160_of(public_key_bytes@),
                    ),
                )
            }),
            r matches Ok(a) ==> {
                &&& a.wf()
                &&& a.account_name@ == name@
                &&& a.private_key.key_bytes == *private_key_bytes
                &&& a.public_key.bytes == *public_key_bytes
                &&& a.address.address_string@ == address@
            },
    {
        let private_key = match PrivateKey::new(private_key_bytes) {
            Ok(private_key) => private_key,
            Err(error) => {
                return Err(error);
            },
        };
        let derived = private_key.derive_public_key();
        if !crate::serialization::primitives::bytes_equal(
            derived.as_slice(),
            public_key_bytes.as_slice(),
        ) {
            return Err(ErrorWallet::CannotCreateAddress(
                "the public key is not the private key's".to_string(),
            ));
        }
        let public_key = PublicKey::new(public_key_bytes);
        let parsed_address = match Address::new(address) {
            Ok(parsed_address) => parsed_address,
            Err(error) => {
                return Err(error);
            },
        };
        let derived_outcome = Address::from_public_key(&public_key);
        proof {
            assert(derived_outcome is Ok);
        }
        let derived_address = match derived_outcome {
            Ok(derived_address) => derived_address,
            Err(error) => {
                proof {
                    assert(false);
                }
                return Err(error);
            },
        };
        if !crate::serialization::primitives::bytes_equal(
            parsed_address.address_bytes.as_slice(),
            derived_address.address_bytes.as_slice(),
        ) {
            proof {
                if address@ == super::address::base58_of(
                    super::address::address_bytes_of(
                        crate::block_structure::hash::hash160_of(public_key_bytes@),
                    ),
                ) {
                    assert(derived_address.address_bytes@ == super::address::address_bytes_of(
                        crate::block_structure::hash::hash160_of(public_key_bytes@),
                    ));
                    assert(derived_address.address_bytes@ == parsed_address.address_bytes@);
                    assert(false);
                }
            }
            return Err(ErrorWallet::CannotCreateAddress(
                "the address is not the public key's".to_string(),
            ));
        }
        proof {
            assert(parsed_address.address_bytes@ =~= derived_address.address_bytes@);
            assert(address@ == super::address::base58_of(
                super::address::address_bytes_of(
                    crate::block_structure::hash::hash160_of(public_key_bytes@),
                ),
            ));
        }
        let account = Account {
            account_name: name.to_owned(),
            private_key,
            public_key,
            address: parsed_address,
        };
        proof {
            assert(account.public_key.bytes@ =~= derived@);
        }
        Ok(account)
    }

    /// Whether the account's address owns the given output.
    pub fn verify_transaction_output_ownership(&self, utxo: &TransactionOutput) -> (r: bool)
        ensures
            r == (utxo.pk_script@ == p2pkh_script(self.address.address_bytes@.subrange(1, 21))),
    {
        self.address.verify_transaction_ownership(utxo)
    }

    /// Whether any output of the transaction pays this account.
    pub fn verify_transaction_ownership(&self, transaction: &Transaction) -> (r: bool)
        ensures
            r == exists|i: int|
                0 <= i < transaction.tx_out@.len()
                    && (#[trigger] transaction.tx_out@[i]).pk_script@ == p2pkh_script(
                    self.address.address_bytes@.subrange(1, 21),
                ),
    {
        crate::block_structure::transaction::transaction_pays_address(transaction, &self.address)
    }

    /// The account's balance: the sum of the values of its unspent outputs.
    pub fn get_balance_in_satoshis(&self, utxo_set: UTXOSet) -> (r: i64)
        requires
            i64::MIN <= sum_values(owned_entries(utxo_set.utxo.deep_view(), self.address.address_bytes@)) <= i64::MAX,
        ensures
            r == sum_values(owned_entries(utxo_set.utxo.deep_view(), self.address.address_bytes@)),
    {
        utxo_set.get_balance_in_satoshis(&self.address)
    }

    /// Builds and signs a payment of `amount` satoshis to `to` with fee
    /// `fee`, spending this account's unspent outputs largest-value-first
    /// until they cover `amount + fee`. When the account's whole balance is
    /// below that, `NotEnoughFunds` is returned and nothing is spent.
    pub fn create_transaction(&self, to: Address, amount: i64, fee: i64, utxo_set: UTXOSet) -> (r:
        Result<Transaction, ErrorWallet>)
        requires
            self.wf(),
            0 <= amount,
            0 <= fee,
            amount + fee <= i64::MAX,
            utxo_set.wf(),
            forall|k: int|
                0 <= k < utxo_set.utxo@.len() ==> (#[trigger] utxo_set.utxo@[k]).1.value >= 0,
            sum_values(owned_entries(utxo_set.utxo.deep_view(), self.address.address_bytes@)) <= i64::MAX,
        ensures
            (r matches Err(e) ==> e is NotEnoughFunds && sum_values(owned_entries(utxo_set.utxo.deep_view(), self.address.address_bytes@)) < amount + fee),
            (r is Ok ==> sum_values(owned_entries(utxo_set.utxo.deep_view(), self.address.address_bytes@)) >= amount + fee),
            (r matches Ok(t) ==> exists|selected: Seq<(OutpointView, TransactionOutputView)>|
                #[trigger] spends_selected(t.deep_view(), selected) && selected_from(
                    selected,
                    utxo_set.utxo.deep_view(),
                    self.address.address_bytes@,
                ) && (forall|k: int, l: int|
                    0 <= k < l < selected.len() ==> (#[trigger] selected[k]).1.value >= (
                    #[trigger] selected[l]).1.value) && (forall|k: int, l: int|
                    0 <= k < l < selected.len() ==> (#[trigger] selected[k]).0 != (
                    #[trigger] selected[l]).0) && (selected.len() > 0 ==> sum_values(
                    selected.drop_last(),
                ) < amount + fee) && sum_values(selected) >= amount + fee
                    && payment_shape(
                    t.deep_view(),
                    self,
                    to.address_bytes@,
                    amount,
                    fee,
                    sum_values(selected),
                )),
    {
        let unsorted = utxo_set.get_utxo_list_with_outpoints(Some(&self.address));
        let owned = sort_entries_descending(&unsorted);
        proof {
            lemma_owned_values_non_negative(
                utxo_set.utxo@,
                utxo_set.utxo.deep_view(),
                unsorted.deep_view(),
                self.address.address_bytes@,
            );
            lemma_sum_values_permutation(owned.deep_view(), unsorted.deep_view());
            unsorted.deep_view().to_multiset_ensures();
            owned.deep_view().to_multiset_ensures();
            lemma_take_of_filter_selected(
                unsorted.deep_view(),
                utxo_set.utxo.deep_view(),
                self.address.address_bytes@,
                unsorted.deep_view().len() as int,
            );
            assert(unsorted.deep_view().take(unsorted.deep_view().len() as int)
                =~= unsorted.deep_view());
            assert forall|k: int| 0 <= k < owned.deep_view().len() implies {
                &&& (#[trigger] owned.deep_view()[k]).1.value >= 0
                &&& utxo_set.utxo.deep_view().contains(owned.deep_view()[k])
                &&& pays_to(owned.deep_view()[k], self.address.address_bytes@)
            } by {
                let x = owned.deep_view()[k];
                assert(owned.deep_view().contains(x));
                assert(owned.deep_view().to_multiset().count(x) > 0);
                assert(unsorted.deep_view().contains(x));
                let u = choose|u: int|
                    0 <= u < unsorted.deep_view().len() && unsorted.deep_view()[u] == x;
                assert(unsorted.deep_view().take(unsorted.deep_view().len() as int)[u] == x);
                assert(unsorted.deep_view()[u].1.value >= 0);
            }
            lemma_sum_take_bound(owned.deep_view(), 0);
        }
        let mut selected: Vec<(Outpoint, TransactionOutput)> = Vec::new();
        let mut total: i128 = 0;
        let mut i: usize = 0;
        let target: i128 = (amount as i128) + (fee as i128);
        proof {
            assert(owned.deep_view().take(0) =~= Seq::<
                (OutpointView, TransactionOutputView),
            >::empty());
            assert(selected.deep_view() =~= Seq::<(OutpointView, TransactionOutputView)>::empty());
        }
        while i < owned.len() && total < target
            invariant
                i <= owned@.len(),
                owned@.len() == owned.deep_view().len(),
                target == amount + fee,
                selected.deep_view() == owned.deep_view().take(i as int),
                total == sum_values(owned.deep_view().take(i as int)),
                0 <= total,
                total <= sum_values(owned.deep_view()),
                (total >= target && i > 0) ==> sum_values(
                    owned.deep_view().take(i - 1),
                ) < target,
                sum_values(owned.deep_view()) <= i64::MAX,
                forall|k: int|
                    0 <= k < owned.deep_view().len() ==> (#[trigger] owned.deep_view()[
                    k]).1.value >= 0,
            decreases owned@.len() - i,
        {
            let ghost views = selected.deep_view();
            proof {
                assert(owned.deep_view().take(i + 1).drop_last() =~= owned.deep_view().take(
                    i as int,
                ));
                lemma_sum_prefix_step(owned.deep_view(), i as int);
                lemma_sum_take_bound(owned.deep_view(), i + 1);
            }
            let entry = (owned[i].0, owned[i].1.clone());
            total = total + (owned[i].1.value as i128);
            selected.push(entry);
            proof {
                assert(selected.deep_view() =~= views.push(owned.deep_view()[i as int]));
                assert(selected.deep_view() =~= owned.deep_view().take(i + 1));
            }
            i = i + 1;
        }
        if total < target {
            proof {
                assert(i == owned@.len());
                assert(owned.deep_view().take(i as int) =~= owned.deep_view());
            }
            return Err(ErrorWallet::NotEnoughFunds(
                "the account's balance is below the amount and fee".to_string(),
            ));
        }
        proof {
            lemma_sum_take_bound(owned.deep_view(), i as int);
            assert(selected.deep_view() == owned.deep_view().take(i as int));
            assert forall|k: int| 0 <= k < selected@.len() implies (#[trigger] selected@[
            k]).1.value >= 0 by {
                let taken = owned.deep_view().take(i as int);
                assert(selected.deep_view()[k] == taken[k]);
                assert(taken[k] == owned.deep_view()[k]);
                assert(owned.deep_view()[k].1.value >= 0);
                assert(selected@[k].deep_view() == selected.deep_view()[k]);
            }
            assert forall|k: int|
                0 <= k < selected.deep_view().len() implies utxo_set.utxo.deep_view().contains(
                #[trigger] selected.deep_view()[k],
            ) && pays_to(selected.deep_view()[k], self.address.address_bytes@) by {
                let taken = owned.deep_view().take(i as int);
                assert(selected.deep_view()[k] == taken[k]);
                assert(taken[k] == owned.deep_view()[k]);
                assert(utxo_set.utxo.deep_view().contains(owned.deep_view()[k]));
                assert(pays_to(owned.deep_view()[k], self.address.address_bytes@));
            }
        }
        proof {
            let entries_view = utxo_set.utxo.deep_view();
            assert forall|a: int, b: int| 0 <= a < b < entries_view.len() implies (
            #[trigger] entries_view[a]).0 != (#[trigger] entries_view[b]).0 by {
                assert(entries_view[a] == utxo_set.utxo@[a].deep_view());
                assert(entries_view[b] == utxo_set.utxo@[b].deep_view());
                assert(utxo_set.utxo@[a].0.deep_view() != utxo_set.utxo@[b].0.deep_view());
            }
            lemma_owned_entries_distinct(entries_view, self.address.address_bytes@);
            let base = unsorted.deep_view();
            let sorted_view = owned.deep_view();
            assert forall|a: int, b: int|
                0 <= a < b < base.len() implies #[trigger] base[a] != #[trigger] base[b] by {
                assert(base[a].0 != base[b].0);
            }
            assert(base.no_duplicates());
            base.lemma_multiset_has_no_duplicates();
            base.to_multiset_ensures();
            sorted_view.to_multiset_ensures();
            assert forall|x: (OutpointView, TransactionOutputView)|
                sorted_view.to_multiset().contains(x) implies sorted_view.to_multiset().count(x)
                == 1 by {
                assert(base.to_multiset().contains(x));
            }
            sorted_view.lemma_multiset_has_no_duplicates_conv();
            assert forall|a: int, b: int| 0 <= a < b < sorted_view.len() implies (
            #[trigger] sorted_view[a]).0 != (#[trigger] sorted_view[b]).0 by {
                if sorted_view[a].0 == sorted_view[b].0 {
                    assert(sorted_view.contains(sorted_view[a]));
                    assert(sorted_view.to_multiset().count(sorted_view[a]) > 0);
                    assert(base.contains(sorted_view[a]));
                    assert(sorted_view.contains(sorted_view[b]));
                    assert(sorted_view.to_multiset().count(sorted_view[b]) > 0);
                    assert(base.contains(sorted_view[b]));
                    let u = choose|u: int| 0 <= u < base.len() && base[u] == sorted_view[a];
                    let v = choose|v: int| 0 <= v < base.len() && base[v] == sorted_view[b];
                    if u == v {
                        assert(sorted_view[a] == sorted_view[b]);
                        assert(sorted_view.no_duplicates());
                        assert(false);
                    } else {
                        assert(base[u].0 != base[v].0);
                        assert(false);
                    }
                }
            }
        }
        match Transaction::from_account_to_address(self, &selected, &to, amount, fee) {
            Ok(transaction) => {
                proof {
                    let sel = selected.deep_view();
                    assert(spends_selected(transaction.deep_view(), sel));
                    assert forall|k: int, l: int|
                        0 <= k < l < sel.len() implies (#[trigger] sel[k]).1.value >= (
                    #[trigger] sel[l]).1.value by {
                        assert(sel[k] == owned.deep_view()[k] && sel[l] == owned.deep_view()[l]);
                    }
                    assert forall|k: int, l: int|
                        0 <= k < l < sel.len() implies (#[trigger] sel[k]).0 != (
                    #[trigger] sel[l]).0 by {
                        assert(sel[k] == owned.deep_view()[k] && sel[l] == owned.deep_view()[l]);
                    }
                    if sel.len() > 0 {
                        assert(sel.drop_last() =~= owned.deep_view().take(i - 1));
                    }
                }
                Ok(transaction)
            },
            Err(error) => Err(error),
        }
    }

    /// Signs a 32-byte digest with the account's private key; the signature
    /// verifies under the account's stored public key, which `wf` ties to
    /// that private key.
    pub fn sign(&self, message: &[u8]) -> (r: Result<Vec<u8>, ErrorWallet>)
        requires
            self.wf(),
        ensures
            r is Ok <==> message@.len() == 32,
            r matches Ok(s) ==> {
                &&& s@ == super::private_key::ecdsa_signature_of(
                    self.private_key.key_bytes@,
                    message@,
                )
                &&& super::private_key::ecdsa_verify_ok(self.public_key.bytes@, message@, s@)
            },
    {
        self.private_key.sign(message)
    }
}

/// Whether the transaction's inputs spend exactly the outpoints of
/// `selected`, in order, still carrying the shape `from_account_to_address`
/// gives them.
pub open spec fn spends_selected(
    t: crate::block_structure::transaction::TransactionView,
    selected: Seq<(OutpointView, TransactionOutputView)>,
) -> bool {
    &&& t.tx_in.len() == selected.len()
    &&& forall|k: int|
        0 <= k < selected.len() ==> (#[trigger] t.tx_in[k]).previous_output == selected[k].0
}

/// Whether every selected entry is one of the owned entries of the unspent
/// list, each taken at most once.
pub open spec fn selected_from(
    selected: Seq<(OutpointView, TransactionOutputView)>,
    entries: Seq<(OutpointView, TransactionOutputView)>,
    address_bytes: Seq<u8>,
) -> bool {
    forall|k: int|
        0 <= k < selected.len() ==> entries.contains(#[trigger] selected[k]) && pays_to(
            selected[k],
            address_bytes,
        )
}

/// The shape of a signed payment: version 1, time 0, default sequences, the
/// paid output first and the change output after it when the change is not
/// zero, and every input's script built by SIGHASH_ALL signing.
pub open spec fn payment_shape(
    t: crate::block_structure::transaction::TransactionView,
    account: &Account,
    to_address_bytes: Seq<u8>,
    amount: i64,
    fee: i64,
    input_total: int,
) -> bool {
    let change = input_total - amount - fee;
    &&& t.version == 1
    &&& t.time == 0
    &&& t.tx_out == payment_outputs(
        to_address_bytes,
        amount,
        account.address.address_bytes@,
        change,
    )
    &&& (forall|k: int| 0 <= k < t.tx_in.len() ==> (#[trigger] t.tx_in[k]).sequence == 0xFFFF_FFFF)
    &&& (forall|k: int|
        0 <= k < t.tx_in.len() ==> (#[trigger] t.tx_in[k]).signature_script
            == crate::block_structure::transaction_input::signature_script_of(
            account.private_key.key_bytes@,
            crate::block_structure::transaction_input::strip_scripts(t),
            k,
            p2pkh_script(account.address.address_bytes@.subrange(1, 21)),
            account.public_key.bytes@,
        ))
}

/// The outputs of a payment: the paid amount, then the change when it is not
/// zero.
pub open spec fn payment_outputs(
    to_address_bytes: Seq<u8>,
    amount: i64,
    back_address_bytes: Seq<u8>,
    change: int,
) -> Seq<TransactionOutputView> {
    let paid = TransactionOutputView {
        value: amount,
        pk_script: p2pkh_script(to_address_bytes.subrange(1, 21)),
    };
    if change > 0 {
        seq![
            paid,
            TransactionOutputView {
                value: change as i64,
                pk_script: p2pkh_script(back_address_bytes.subrange(1, 21)),
            },
        ]
    } else {
        seq![paid]
    }
}

proof fn lemma_sum_prefix_step(entries: Seq<(OutpointView, TransactionOutputView)>, i: int)
    requires
        0 <= i < entries.len(),
        forall|k: int| 0 <= k < entries.len() ==> (#[trigger] entries[k]).1.value >= 0,
    ensures
        sum_values(entries.take(i + 1)) == sum_values(entries.take(i)) + entries[i].1.value,
        sum_values(entries.take(i)) >= 0,
        sum_values(entries.take(i + 1)) >= 0,
{
    assert(entries.take(i + 1).drop_last() =~= entries.take(i));
    lemma_sum_take_non_negative(entries, i);
    lemma_sum_take_non_negative(entries, i + 1);
}

proof fn lemma_sum_take_non_negative(entries: Seq<(OutpointView, TransactionOutputView)>, i: int)
    requires
        0 <= i <= entries.len(),
        forall|k: int| 0 <= k < entries.len() ==> (#[trigger] entries[k]).1.value >= 0,
    ensures
        sum_values(entries.take(i)) >= 0,
    decreases i,
{
    if i > 0 {
        assert(entries.take(i).drop_last() =~= entries.take(i - 1));
        lemma_sum_take_non_negative(entries, i - 1);
    }
}

/// With non-negative values, the sum over a prefix is at most the whole sum.
proof fn lemma_sum_take_bound(entries: Seq<(OutpointView, TransactionOutputView)>, i: int)
    requires
        0 <= i <= entries.len(),
        forall|k: int| 0 <= k < entries.len() ==> (#[trigger] entries[k]).1.value >= 0,
    ensures
        sum_values(entries.take(i)) <= sum_values(entries),
    decreases entries.len() - i,
{
    if i < entries.len() {
        assert(entries.take(i + 1).drop_last() =~= entries.take(i));
        lemma_sum_take_bound(entries, i + 1);
    } else {
        assert(entries.take(i) =~= entries);
    }
}

/// Entries filtered for an address all pay it, come from the full list, and
/// keep non-negative values.
/// Filtering for an address keeps the outpoints pairwise distinct, and every
/// kept entry is one of the originals.
proof fn lemma_owned_entries_distinct(
    entries: Seq<(OutpointView, TransactionOutputView)>,
    address_bytes: Seq<u8>,
)
    requires
        forall|i: int, j: int|
            0 <= i < j < entries.len() ==> (#[trigger] entries[i]).0 != (#[trigger] entries[j]).0,
    ensures
        forall|i: int, j: int|
            0 <= i < j < owned_entries(entries, address_bytes).len() ==> (
            #[trigger] owned_entries(entries, address_bytes)[i]).0 != (#[trigger] owned_entries(
                entries,
                address_bytes,
            )[j]).0,
        forall|i: int|
            0 <= i < owned_entries(entries, address_bytes).len() ==> exists|u: int|
                0 <= u < entries.len() && (#[trigger] owned_entries(entries, address_bytes)[i])
                    == entries[u],
    decreases entries.len(),
{
    reveal_with_fuel(Seq::<(OutpointView, TransactionOutputView)>::filter, 2);
    if entries.len() > 0 {
        let prefix = entries.drop_last();
        let last = entries.last();
        lemma_owned_entries_distinct(prefix, address_bytes);
        let owned_prefix = owned_entries(prefix, address_bytes);
        let owned = owned_entries(entries, address_bytes);
        if pays_to(last, address_bytes) {
            assert(owned =~= owned_prefix.push(last));
            assert forall|i: int, j: int| 0 <= i < j < owned.len() implies (
            #[trigger] owned[i]).0 != (#[trigger] owned[j]).0 by {
                if j == owned.len() - 1 {
                    assert(owned[j] == last);
                    assert(owned[i] == owned_prefix[i]);
                    let u = choose|u: int|
                        0 <= u < prefix.len() && owned_prefix[i] == prefix[u];
                    assert(entries[u] == prefix[u]);
                    assert(entries[u].0 != entries[entries.len() - 1].0);
                } else {
                    assert(owned[i] == owned_prefix[i] && owned[j] == owned_prefix[j]);
                }
            }
            assert forall|i: int| 0 <= i < owned.len() implies exists|u: int|
                0 <= u < entries.len() && (#[trigger] owned[i]) == entries[u] by {
                if i == owned.len() - 1 {
                    assert(owned[i] == entries[entries.len() - 1]);
                } else {
                    let u = choose|u: int|
                        0 <= u < prefix.len() && owned_prefix[i] == prefix[u];
                    assert(owned[i] == entries[u]);
                }
            }
        } else {
            assert(owned =~= owned_prefix);
            assert forall|i: int| 0 <= i < owned.len() implies exists|u: int|
                0 <= u < entries.len() && (#[trigger] owned[i]) == entries[u] by {
                let u = choose|u: int|
                    0 <= u < prefix.len() && owned_prefix[i] == prefix[u];
                assert(owned[i] == entries[u]);
            }
        }
    }
}

proof fn lemma_owned_values_non_negative(
    entries: Seq<(Outpoint, TransactionOutput)>,
    entries_view: Seq<(OutpointView, TransactionOutputView)>,
    owned: Seq<(OutpointView, TransactionOutputView)>,
    address_bytes: Seq<u8>,
)
    requires
        entries_view == Seq::new(entries.len(), |i: int| entries[i].deep_view()),
        owned == owned_entries(entries_view, address_bytes),
        forall|k: int| 0 <= k < entries.len() ==> (#[trigger] entries[k]).1.value >= 0,
    ensures
        forall|k: int| 0 <= k < owned.len() ==> (#[trigger] owned[k]).1.value >= 0,
{
    assert forall|k: int| 0 <= k < owned.len() implies (#[trigger] owned[k]).1.value >= 0 by {
        assert(owned.contains(owned[k]));
        assert(entries_view.contains(owned[k]));
        let j = choose|j: int| 0 <= j < entries_view.len() && entries_view[j] == owned[k];
        assert(entries_view[j].1.value == entries[j].1.value);
    }
}

/// Removing one entry takes exactly its value out of the total.
proof fn lemma_sum_values_remove(entries: Seq<(OutpointView, TransactionOutputView)>, i: int)
    requires
        0 <= i < entries.len(),
    ensures
        sum_values(entries.remove(i)) == sum_values(entries) - entries[i].1.value,
    decreases entries.len(),
{
    if i == entries.len() - 1 {
        assert(entries.remove(i) =~= entries.drop_last());
    } else {
        assert(entries.remove(i).drop_last() =~= entries.drop_last().remove(i));
        assert(entries.remove(i).last() == entries.last());
        lemma_sum_values_remove(entries.drop_last(), i);
    }
}

/// Two selections holding the same entries, in any order, carry the same
/// total value.
proof fn lemma_sum_values_permutation(
    a: Seq<(OutpointView, TransactionOutputView)>,
    b: Seq<(OutpointView, TransactionOutputView)>,
)
    requires
        a.to_multiset() == b.to_multiset(),
    ensures
        sum_values(a) == sum_values(b),
    decreases a.len(),
{
    a.to_multiset_ensures();
    b.to_multiset_ensures();
    if a.len() == 0 {
        assert(b.to_multiset().len() == 0);
        assert(b.len() == 0);
    } else {
        let x = a.last();
        assert(a.contains(x));
        assert(a.to_multiset().count(x) > 0);
        assert(b.contains(x));
        let j = choose|j: int| 0 <= j < b.len() && b[j] == x;
        assert(a.remove(a.len() - 1).to_multiset() =~= a.to_multiset().remove(x));
        assert(a.remove(a.len() - 1) =~= a.drop_last());
        assert(b.remove(j).to_multiset() =~= b.to_multiset().remove(x));
        lemma_sum_values_permutation(a.drop_last(), b.remove(j));
        lemma_sum_values_remove(b, j);
    }
}

/// A copy of the entries ordered by descending value, largest first.
fn sort_entries_descending(entries: &Vec<(Outpoint, TransactionOutput)>) -> (r: Vec<
    (Outpoint, TransactionOutput),
>)
    ensures
        r.deep_view().to_multiset() == entries.deep_view().to_multiset(),
        forall|k: int, l: int|
            0 <= k < l < r.deep_view().len() ==> (#[trigger] r.deep_view()[k]).1.value >= (
            #[trigger] r.deep_view()[l]).1.value,
{
    let mut rem: Vec<(Outpoint, TransactionOutput)> = Vec::new();
    let mut i: usize = 0;
    while i < entries.len()
        invariant
            i <= entries@.len(),
            rem.deep_view() == entries.deep_view().take(i as int),
        decreases entries@.len() - i,
    {
        let ghost pre = rem.deep_view();
        rem.push((entries[i].0, entries[i].1.clone()));
        proof {
            assert(rem.deep_view() =~= pre.push(entries.deep_view()[i as int]));
            assert(rem.deep_view() =~= entries.deep_view().take(i + 1));
        }
        i = i + 1;
    }
    proof {
        assert(entries.deep_view().take(entries@.len() as int) =~= entries.deep_view());
    }
    let mut out: Vec<(Outpoint, TransactionOutput)> = Vec::new();
    proof {
        assert(out.deep_view() =~= Seq::<(OutpointView, TransactionOutputView)>::empty());
        out.deep_view().to_multiset_ensures();
        vstd::multiset::lemma_multiset_empty_len(out.deep_view().to_multiset());
        assert(out.deep_view().to_multiset() =~= vstd::multiset::Multiset::empty());
        assert(out.deep_view().to_multiset().add(rem.deep_view().to_multiset())
            =~= rem.deep_view().to_multiset()) by {
            broadcast use vstd::multiset::group_multiset_axioms;

        }
    }
    while rem.len() > 0
        invariant
            out.deep_view().to_multiset().add(rem.deep_view().to_multiset())
                == entries.deep_view().to_multiset(),
            forall|k: int, l: int|
                0 <= k < l < out.deep_view().len() ==> (#[trigger] out.deep_view()[k]).1.value >= (
                #[trigger] out.deep_view()[l]).1.value,
            forall|k: int, j: int|
                0 <= k < out.deep_view().len() && 0 <= j < rem.deep_view().len() ==> (
                #[trigger] out.deep_view()[k]).1.value >= (#[trigger] rem.deep_view()[j]).1.value,
        decreases rem@.len(),
    {
        let mut m: usize = 0;
        let mut j: usize = 1;
        while j < rem.len()
            invariant
                rem@.len() > 0,
                m < rem@.len(),
                j <= rem@.len(),
                forall|k: int|
                    0 <= k < j ==> rem.deep_view()[m as int].1.value >= (
                    #[trigger] rem.deep_view()[k]).1.value,
            decreases rem@.len() - j,
        {
            if rem[j].1.value > rem[m].1.value {
                m = j;
            }
            j = j + 1;
        }
        let picked = (rem[m].0, rem[m].1.clone());
        let ghost pre_out = out.deep_view();
        let ghost pre_rem = rem.deep_view();
        let ghost x = pre_rem[m as int];
        out.push(picked);
        let _removed = rem.remove(m);
        proof {
            pre_out.to_multiset_ensures();
            pre_rem.to_multiset_ensures();
            assert(out.deep_view() =~= pre_out.push(x));
            assert(rem.deep_view() =~= pre_rem.remove(m as int));
            assert(pre_rem.contains(x));
            assert(pre_out.push(x).to_multiset() =~= pre_out.to_multiset().insert(x));
            assert(pre_rem.remove(m as int).to_multiset() =~= pre_rem.to_multiset().remove(x));
            assert(out.deep_view().to_multiset() =~= pre_out.to_multiset().insert(x));
            assert(rem.deep_view().to_multiset() =~= pre_rem.to_multiset().remove(x));
            assert(out.deep_view().to_multiset().add(rem.deep_view().to_multiset())
                =~= pre_out.to_multiset().add(pre_rem.to_multiset()));
            assert forall|k: int, l: int|
                0 <= k < l < out.deep_view().len() implies (#[trigger] out.deep_view()[
            k]).1.value >= (#[trigger] out.deep_view()[l]).1.value by {
                if l < pre_out.len() {
                    assert(out.deep_view()[k] == pre_out[k] && out.deep_view()[l] == pre_out[l]);
                } else {
                    assert(out.deep_view()[l] == x);
                    assert(out.deep_view()[k] == pre_out[k]);
                }
            }
            assert forall|k: int, j2: int|
                0 <= k < out.deep_view().len() && 0 <= j2 < rem.deep_view().len() implies (
            #[trigger] out.deep_view()[k]).1.value >= (#[trigger] rem.deep_view()[
            j2]).1.value by {
                let y = rem.deep_view()[j2];
                assert(y == if j2 < m as int {
                    pre_rem[j2]
                } else {
                    pre_rem[j2 + 1]
                });
                if k < pre_out.len() {
                    assert(out.deep_view()[k] == pre_out[k]);
                } else {
                    assert(out.deep_view()[k] == x);
                    assert(x.1.value >= y.1.value);
                }
            }
        }
    }
    proof {
        rem.deep_view().to_multiset_ensures();
        vstd::multiset::lemma_multiset_empty_len(rem.deep_view().to_multiset());
        assert(rem.deep_view().to_multiset() =~= vstd::multiset::Multiset::empty());
        assert(out.deep_view().to_multiset().add(rem.deep_view().to_multiset())
            =~= out.deep_view().to_multiset()) by {
            broadcast use vstd::multiset::group_multiset_axioms;

        }
    }
    out
}

/// A prefix of the owned list of an address pays it and comes from the
/// unspent entries.
proof fn lemma_take_of_filter_selected(
    owned: Seq<(OutpointView, TransactionOutputView)>,
    entries_view: Seq<(OutpointView, TransactionOutputView)>,
    address_bytes: Seq<u8>,
    i: int,
)
    requires
        0 <= i <= owned.len(),
        owned == owned_entries(entries_view, address_bytes),
    ensures
        selected_from(owned.take(i), entries_view, address_bytes),
{
    assert forall|k: int| 0 <= k < i implies entries_view.contains(#[trigger] owned.take(i)[k])
        && pays_to(owned.take(i)[k], address_bytes) by {
        assert(owned.take(i)[k] == owned[k]);
        assert(owned.contains(owned[k]));
        assert(entries_view.contains(owned[k]));
        assert(pays_to(owned[k], address_bytes));
    }
}

} // verus!
