use vstd::prelude::*;

use super::hash::{hash256d, sha256d_of, HashType};
use super::transaction_input::{TransactionInput, TransactionInputView};
use super::transaction_output::{TransactionOutput, TransactionOutputView};
use crate::messages::compact_size::CompactSize;
use crate::serialization::deserializable_internal_order::{
    io_deserialize_items, items_io_parse, DeserializableInternalOrder,
};
use crate::serialization::deserializable_little_endian::DeserializableLittleEndian;
use crate::serialization::encoding::le_bytes_of;
use crate::serialization::error_serialization::ErrorSerialization;
use crate::serialization::serializable_internal_order::{
    io_serialize_items, items_io_bytes, SerializableInternalOrder,
};
use crate::serialization::serializable_little_endian::SerializableLittleEndian;
use crate::block_structure::error_block::ErrorBlock;

verus! {

/// A transaction: version, inputs, outputs and time/locktime, laid out on
/// the wire in that order with compact-size counts before each list.
#[derive(Debug)]
pub struct Transaction {
    pub version: i32,
    pub tx_in: Vec<TransactionInput>,
    pub tx_out: Vec<TransactionOutput>,
    pub time: u32,
}

/// The mathematical shape of a transaction.
#[verifier::ext_equal]
pub ghost struct TransactionView {
    pub version: i32,
    pub tx_in: Seq<TransactionInputView>,
    pub tx_out: Seq<TransactionOutputView>,
    pub time: u32,
}

impl DeepView for Transaction {
    type V = TransactionView;

    open spec fn deep_view(&self) -> TransactionView {
        TransactionView {
            version: self.version,
            tx_in: self.tx_in.deep_view(),
            tx_out: self.tx_out.deep_view(),
            time: self.time,
        }
    }
}

/// A copy of an input list with the same views.
pub fn clone_inputs(items: &Vec<TransactionInput>) -> (r: Vec<TransactionInput>)
    ensures
        r.deep_view() == items.deep_view(),
{
    let mut out: Vec<TransactionInput> = Vec::new();
    let mut i: usize = 0;
    while i < items.len()
        invariant
            i <= items@.len(),
            out@.len() == i,
            forall|j: int| 0 <= j < i ==> out@[j].deep_view() == items@[j].deep_view(),
        decreases items@.len() - i,
    {
        out.push(items[i].clone());
        i = i + 1;
    }
    proof {
        assert(out.deep_view() =~= items.deep_view());
    }
    out
}

/// A copy of an output list with the same views.
pub fn clone_outputs(items: &Vec<TransactionOutput>) -> (r: Vec<TransactionOutput>)
    ensures
        r.deep_view() == items.deep_view(),
{
    let mut out: Vec<TransactionOutput> = Vec::new();
    let mut i: usize = 0;
    while i < items.len()
        invariant
            i <= items@.len(),
            out@.len() == i,
            forall|j: int| 0 <= j < i ==> out@[j].deep_view() == items@[j].deep_view(),
        decreases items@.len() - i,
    {
        out.push(items[i].clone());
        i = i + 1;
    }
    proof {
        assert(out.deep_view() =~= items.deep_view());
    }
    out
}

impl Clone for Transaction {
    fn clone(&self) -> (r: Transaction)
        ensures
            r.deep_view() == self.deep_view(),
    {
        let r = Transaction {
            version: self.version,
            tx_in: clone_inputs(&self.tx_in),
            tx_out: clone_outputs(&self.tx_out),
            time: self.time,
        };
        proof {
            assert(r.deep_view() =~= self.deep_view());
        }
        r
    }
}

impl PartialEq for Transaction {
    fn eq(&self, other: &Transaction) -> (r: bool) {
        if self.version != other.version || self.time != other.time || self.tx_in.len()
            != other.tx_in.len() || self.tx_out.len() != other.tx_out.len() {
            proof {
                assert(self.deep_view().tx_in.len() == self.tx_in@.len());
                assert(other.deep_view().tx_in.len() == other.tx_in@.len());
                assert(self.deep_view().tx_out.len() == self.tx_out@.len());
                assert(other.deep_view().tx_out.len() == other.tx_out@.len());
            }
            return false;
        }
        let mut i: usize = 0;
        while i < self.tx_in.len()
            invariant
                i <= self.tx_in@.len(),
                self.tx_in@.len() == other.tx_in@.len(),
                forall|j: int|
                    0 <= j < i ==> self.tx_in@[j].deep_view() == other.tx_in@[j].deep_view(),
            decreases self.tx_in@.len() - i,
        {
            if !(self.tx_in[i] == other.tx_in[i]) {
                proof {
                    assert(self.deep_view().tx_in[i as int] != other.deep_view().tx_in[i as int]);
                }
                return false;
            }
            i = i + 1;
        }
        let mut i: usize = 0;
        while i < self.tx_out.len()
            invariant
                i <= self.tx_out@.len(),
                self.tx_out@.len() == other.tx_out@.len(),
                forall|j: int|
                    0 <= j < i ==> self.tx_out@[j].deep_view() == other.tx_out@[j].deep_view(),
            decreases self.tx_out@.len() - i,
        {
            if !(self.tx_out[i] == other.tx_out[i]) {
                proof {
                    assert(self.deep_view().tx_out[i as int] != other.deep_view().tx_out[i as int]);
                }
                return false;
            }
            i = i + 1;
        }
        proof {
            assert(self.deep_view() =~= other.deep_view()) by {
                assert(self.tx_in.deep_view() =~= other.tx_in.deep_view());
                assert(self.tx_out.deep_view() =~= other.tx_out.deep_view());
            }
        }
        true
    }
}

impl vstd::std_specs::cmp::PartialEqSpecImpl for Transaction {
    open spec fn obeys_eq_spec() -> bool {
        true
    }

    open spec fn eq_spec(&self, other: &Transaction) -> bool {
        self.deep_view() == other.deep_view()
    }
}

impl Transaction {
    /// The transaction identifier: the double SHA-256 of the transaction's
    /// wire bytes.
    pub fn get_tx_id(&self) -> (r: Result<HashType, ErrorBlock>)
        ensures
            r matches Ok(h) ==> h@ == sha256d_of(self.io_bytes()),
            r is Ok,
    {
        let mut buffer: Vec<u8> = Vec::new();
        if self.io_serialize(&mut buffer).is_err() {
            return Err(ErrorBlock::CouldNotGetTxId);
        }
        match hash256d(buffer.as_slice()) {
            Ok(txid) => Ok(txid),
            Err(_) => Err(ErrorBlock::CouldNotGetTxId),
        }
    }
}

/// The wire bytes of a list of input views, one after the other.
pub open spec fn txins_view_bytes(items: Seq<TransactionInputView>) -> Seq<u8>
    decreases items.len(),
{
    if items.len() == 0 {
        Seq::empty()
    } else {
        super::transaction_input::txin_view_bytes(items[0]) + txins_view_bytes(items.drop_first())
    }
}

/// The wire bytes of a list of output views, one after the other.
pub open spec fn txouts_view_bytes(items: Seq<TransactionOutputView>) -> Seq<u8>
    decreases items.len(),
{
    if items.len() == 0 {
        Seq::empty()
    } else {
        super::transaction_output::txout_bytes(items[0]) + txouts_view_bytes(items.drop_first())
    }
}

/// The wire bytes of a transaction view.
pub open spec fn tx_view_bytes(v: TransactionView) -> Seq<u8> {
    v.version.le_bytes() + (CompactSize {
        value: v.tx_in.len() as u64,
    }).le_bytes() + txins_view_bytes(v.tx_in) + (CompactSize {
        value: v.tx_out.len() as u64,
    }).le_bytes() + txouts_view_bytes(v.tx_out) + le_bytes_of(v.time as nat, 4)
}

/// Two transactions with the same view have the same identifier: the
/// identifier is a function of the wire bytes, and the wire bytes of the
/// view alone, so a transaction read back from its own bytes keeps its
/// identifier.
pub proof fn lemma_txid_stable(left: Transaction, right: Transaction)
    requires
        left.deep_view() == right.deep_view(),
    ensures
        sha256d_of(left.io_bytes()) == sha256d_of(right.io_bytes()),
{
    lemma_tx_bytes_from_view(left);
    lemma_tx_bytes_from_view(right);
}

/// A transaction's wire bytes depend on its view alone.
pub proof fn lemma_tx_bytes_from_view(t: Transaction)
    ensures
        t.io_bytes() == tx_view_bytes(t.deep_view()),
{
    lemma_txins_bytes_from_view(t.tx_in@);
    lemma_txouts_bytes_from_view(t.tx_out@);
    assert(t.tx_in.deep_view().len() == t.tx_in@.len());
    assert(t.tx_out.deep_view().len() == t.tx_out@.len());
    assert(t.io_bytes() =~= tx_view_bytes(t.deep_view()));
}

proof fn lemma_txins_bytes_from_view(items: Seq<TransactionInput>)
    ensures
        items_io_bytes(items) == txins_view_bytes(
            Seq::new(items.len(), |i: int| items[i].deep_view()),
        ),
    decreases items.len(),
{
    let views = Seq::new(items.len(), |i: int| items[i].deep_view());
    if items.len() == 0 {
        assert(items_io_bytes(items) =~= txins_view_bytes(views));
    } else {
        lemma_txins_bytes_from_view(items.drop_first());
        let tail_views = Seq::new(
            items.drop_first().len(),
            |i: int| items.drop_first()[i].deep_view(),
        );
        assert(views.drop_first() =~= tail_views);
        assert(items_io_bytes(items) =~= txins_view_bytes(views));
    }
}

proof fn lemma_txouts_bytes_from_view(items: Seq<TransactionOutput>)
    ensures
        items_io_bytes(items) == txouts_view_bytes(
            Seq::new(items.len(), |i: int| items[i].deep_view()),
        ),
    decreases items.len(),
{
    let views = Seq::new(items.len(), |i: int| items[i].deep_view());
    if items.len() == 0 {
        assert(items_io_bytes(items) =~= txouts_view_bytes(views));
    } else {
        lemma_txouts_bytes_from_view(items.drop_first());
        let tail_views = Seq::new(
            items.drop_first().len(),
            |i: int| items.drop_first()[i].deep_view(),
        );
        assert(views.drop_first() =~= tail_views);
        assert(items_io_bytes(items) =~= txouts_view_bytes(views));
    }
}

/// Whether some output of the transaction pays the given address.
pub fn transaction_pays_address(
    transaction: &Transaction,
    address: &crate::wallet_structure::address::Address,
) -> (r: bool)
    ensures
        r == exists|i: int|
            0 <= i < transaction.tx_out@.len() && (#[trigger] transaction.tx_out@[i]).pk_script@
                == crate::wallet_structure::address::p2pkh_script(
                address.address_bytes@.subrange(1, 21),
            ),
{
    let mut i: usize = 0;
    while i < transaction.tx_out.len()
        invariant
            i <= transaction.tx_out@.len(),
            forall|j: int|
                0 <= j < i ==> (#[trigger] transaction.tx_out@[j]).pk_script@
                    != crate::wallet_structure::address::p2pkh_script(
                    address.address_bytes@.subrange(1, 21),
                ),
        decreases transaction.tx_out@.len() - i,
    {
        if address.verify_transaction_ownership(&transaction.tx_out[i]) {
            return true;
        }
        i = i + 1;
    }
    false
}

impl Transaction {
    /// Assembles and signs a payment from the given owned outputs: the paid
    /// output first, the change back to the account when it is not zero,
    /// every input spending one selected output with a SIGHASH_ALL script.
    pub fn from_account_to_address(
        account: &crate::wallet_structure::account::Account,
        outputs_to_spend: &Vec<(super::outpoint::Outpoint, TransactionOutput)>,
        to: &crate::wallet_structure::address::Address,
        amount: i64,
        fee: i64,
    ) -> (r: Result<Transaction, crate::wallet_structure::error_wallet::ErrorWallet>)
        requires
            account.wf(),
            0 <= amount,
            0 <= fee,
            amount + fee <= i64::MAX,
            crate::block_structure::utxo_set::sum_values(outputs_to_spend.deep_view()) >= amount
                + fee,
            crate::block_structure::utxo_set::sum_values(outputs_to_spend.deep_view())
                <= i64::MAX,
            forall|k: int|
                0 <= k < outputs_to_spend@.len() ==> (#[trigger] outputs_to_spend@[k]).1.value
                    >= 0,
            forall|k: int|
                0 <= k < outputs_to_spend.deep_view().len() ==> crate::block_structure::utxo_set::pays_to(
                    #[trigger] outputs_to_spend.deep_view()[k],
                    account.address.address_bytes@,
                ),
        ensures
            r is Ok,
            r matches Ok(t) ==> {
                &&& crate::wallet_structure::account::spends_selected(
                    t.deep_view(),
                    outputs_to_spend.deep_view(),
                )
                &&& crate::wallet_structure::account::payment_shape(
                    t.deep_view(),
                    account,
                    to.address_bytes@,
                    amount,
                    fee,
                    crate::block_structure::utxo_set::sum_values(outputs_to_spend.deep_view()),
                )
            },
    {
        let ghost selected = outputs_to_spend.deep_view();
        let mut total: i128 = 0;
        let mut i: usize = 0;
        proof {
            assert(selected.take(0) =~= Seq::<
                (super::outpoint::OutpointView, TransactionOutputView),
            >::empty());
            lemma_selected_sum_bounds(selected, 0);
        }
        while i < outputs_to_spend.len()
            invariant
                i <= outputs_to_spend@.len(),
                selected == outputs_to_spend.deep_view(),
                outputs_to_spend@.len() == selected.len(),
                total == crate::block_structure::utxo_set::sum_values(selected.take(i as int)),
                0 <= total,
                total <= crate::block_structure::utxo_set::sum_values(selected),
                crate::block_structure::utxo_set::sum_values(selected) <= i64::MAX,
                forall|k: int| 0 <= k < selected.len() ==> (#[trigger] selected[k]).1.value >= 0,
            decreases outputs_to_spend@.len() - i,
        {
            proof {
                assert(selected.take(i + 1).drop_last() =~= selected.take(i as int));
                lemma_selected_sum_bounds(selected, i + 1);
                assert(selected[i as int].1.value == outputs_to_spend@[i as int].1.value);
            }
            total = total + (outputs_to_spend[i].1.value as i128);
            i = i + 1;
        }
        proof {
            assert(selected.take(selected.len() as int) =~= selected);
        }
        let input_total: i64 = total as i64;
        let change: i64 = input_total - amount - fee;
        let mut tx_out: Vec<TransactionOutput> = Vec::new();
        tx_out.push(
            TransactionOutput { value: amount, pk_script: to.generate_script_pubkey_p2pkh() },
        );
        if change > 0 {
            tx_out.push(
                TransactionOutput {
                    value: change,
                    pk_script: account.address.generate_script_pubkey_p2pkh(),
                },
            );
        }
        let mut unsigned_inputs: Vec<TransactionInput> = Vec::new();
        let mut k: usize = 0;
        while k < outputs_to_spend.len()
            invariant
                selected == outputs_to_spend.deep_view(),
                outputs_to_spend@.len() == selected.len(),
                k <= outputs_to_spend@.len(),
                unsigned_inputs@.len() == k,
                forall|m: int|
                    0 <= m < k ==> (#[trigger] unsigned_inputs@[m]).deep_view()
                        == (super::transaction_input::TransactionInputView {
                        previous_output: selected[m].0,
                        signature_script: Seq::<u8>::empty(),
                        sequence: 0xFFFF_FFFFu32,
                    }),
            decreases outputs_to_spend@.len() - k,
        {
            let input = TransactionInput::new(outputs_to_spend[k].0, Vec::new(), 0xFFFF_FFFF);
            unsigned_inputs.push(input);
            k = k + 1;
        }
        let unsigned = Transaction { version: 1, tx_in: unsigned_inputs, tx_out, time: 0 };
        let ghost unsigned_view = unsigned.deep_view();
        proof {
            assert(unsigned_view.tx_out =~= crate::wallet_structure::account::payment_outputs(
                to.address_bytes@,
                amount,
                account.address.address_bytes@,
                (input_total - amount - fee) as int,
            ));
            assert(forall|m: int|
                0 <= m < selected.len() ==> #[trigger] unsigned_view.tx_in[m]
                    == (super::transaction_input::TransactionInputView {
                    previous_output: selected[m].0,
                    signature_script: Seq::<u8>::empty(),
                    sequence: 0xFFFF_FFFFu32,
                }));
        }
        let mut signed_inputs: Vec<TransactionInput> = Vec::new();
        let mut n: usize = 0;
        while n < unsigned.tx_in.len()
            invariant
                account.wf(),
                selected == outputs_to_spend.deep_view(),
                outputs_to_spend@.len() == selected.len(),
                unsigned.tx_in@.len() == selected.len(),
                unsigned_view == unsigned.deep_view(),
                n <= unsigned.tx_in@.len(),
                signed_inputs@.len() == n,
                forall|m: int|
                    0 <= m < n ==> (#[trigger] signed_inputs@[m]).deep_view()
                        == (super::transaction_input::TransactionInputView {
                        previous_output: unsigned.tx_in@[m].deep_view().previous_output,
                        signature_script:
                            super::transaction_input::signature_script_of(
                            account.private_key.key_bytes@,
                            super::transaction_input::strip_scripts(unsigned_view),
                            m,
                            outputs_to_spend@[m].1.pk_script@,
                            account.public_key.bytes@,
                        ),
                        sequence: unsigned.tx_in@[m].deep_view().sequence,
                    }),
            decreases unsigned.tx_in@.len() - n,
        {
            let script = match TransactionInput::create_signature_script(
                &unsigned,
                n,
                &outputs_to_spend[n].1.pk_script,
                account,
            ) {
                Ok(script) => script,
                Err(error) => {
                    return Err(error);
                },
            };
            let signed = TransactionInput::new(
                unsigned.tx_in[n].previous_output,
                script,
                unsigned.tx_in[n].sequence,
            );
            signed_inputs.push(signed);
            n = n + 1;
        }
        let signed_tx = Transaction {
            version: unsigned.version,
            tx_in: signed_inputs,
            tx_out: clone_outputs(&unsigned.tx_out),
            time: unsigned.time,
        };
        proof {
            assert(forall|m: int|
                0 <= m < selected.len() ==> #[trigger] signed_tx.deep_view().tx_in[m]
                    == signed_inputs@[m].deep_view());
            assert(signed_tx.deep_view().tx_out =~= unsigned_view.tx_out);
            lemma_payment_assembled(
                signed_tx.deep_view(),
                unsigned_view,
                selected,
                account,
                to.address_bytes@,
                amount,
                fee,
                input_total as int,
            );
        }
        Ok(signed_tx)
    }
}

/// Sums of selected outputs stay within the total when values are
/// non-negative.
proof fn lemma_selected_sum_bounds(
    selected: Seq<(super::outpoint::OutpointView, TransactionOutputView)>,
    i: int,
)
    requires
        0 <= i <= selected.len(),
        forall|k: int| 0 <= k < selected.len() ==> (#[trigger] selected[k]).1.value >= 0,
    ensures
        crate::block_structure::utxo_set::sum_values(selected.take(i)) >= 0,
        crate::block_structure::utxo_set::sum_values(selected.take(i))
            <= crate::block_structure::utxo_set::sum_values(selected),
{
    lemma_selected_sum_low(selected, i);
    lemma_selected_sum_bounds_upper(selected, i);
}

/// A prefix sum of non-negative values is non-negative.
proof fn lemma_selected_sum_low(
    selected: Seq<(super::outpoint::OutpointView, TransactionOutputView)>,
    i: int,
)
    requires
        0 <= i <= selected.len(),
        forall|k: int| 0 <= k < selected.len() ==> (#[trigger] selected[k]).1.value >= 0,
    ensures
        crate::block_structure::utxo_set::sum_values(selected.take(i)) >= 0,
    decreases i,
{
    if i > 0 {
        assert(selected.take(i).drop_last() =~= selected.take(i - 1));
        lemma_selected_sum_low(selected, i - 1);
    }
}

proof fn lemma_selected_sum_bounds_upper(
    selected: Seq<(super::outpoint::OutpointView, TransactionOutputView)>,
    i: int,
)
    requires
        0 <= i <= selected.len(),
        forall|k: int| 0 <= k < selected.len() ==> (#[trigger] selected[k]).1.value >= 0,
    ensures
        crate::block_structure::utxo_set::sum_values(selected.take(i))
            <= crate::block_structure::utxo_set::sum_values(selected),
    decreases selected.len() - i,
{
    if i < selected.len() {
        assert(selected.take(i + 1).drop_last() =~= selected.take(i));
        lemma_selected_sum_bounds_upper(selected, i + 1);
    } else {
        assert(selected.take(i) =~= selected);
    }
}

/// The assembled signed transaction spends the selected outpoints and has
/// the payment shape.
proof fn lemma_payment_assembled(
    signed: TransactionView,
    unsigned: TransactionView,
    selected: Seq<(super::outpoint::OutpointView, TransactionOutputView)>,
    account: &crate::wallet_structure::account::Account,
    to_address_bytes: Seq<u8>,
    amount: i64,
    fee: i64,
    input_total: int,
)
    requires
        signed.version == 1 && signed.time == 0,
        unsigned.version == 1 && unsigned.time == 0,
        signed.tx_in.len() == selected.len(),
        unsigned.tx_in.len() == selected.len(),
        signed.tx_out == unsigned.tx_out,
        input_total == crate::block_structure::utxo_set::sum_values(selected),
        unsigned.tx_out == crate::wallet_structure::account::payment_outputs(
            to_address_bytes,
            amount,
            account.address.address_bytes@,
            input_total - amount - fee,
        ),
        forall|m: int|
            0 <= m < selected.len() ==> (#[trigger] unsigned.tx_in[m])
                == (super::transaction_input::TransactionInputView {
                previous_output: selected[m].0,
                signature_script: Seq::<u8>::empty(),
                sequence: 0xFFFF_FFFFu32,
            }),
        forall|m: int|
            0 <= m < selected.len() ==> (#[trigger] signed.tx_in[m])
                == (super::transaction_input::TransactionInputView {
                previous_output: unsigned.tx_in[m].previous_output,
                signature_script: super::transaction_input::signature_script_of(
                    account.private_key.key_bytes@,
                    super::transaction_input::strip_scripts(unsigned),
                    m,
                    selected[m].1.pk_script,
                    account.public_key.bytes@,
                ),
                sequence: unsigned.tx_in[m].sequence,
            }),
        forall|m: int|
            0 <= m < selected.len() ==> (#[trigger] selected[m]).1.pk_script
                == crate::wallet_structure::address::p2pkh_script(
                account.address.address_bytes@.subrange(1, 21),
            ),
    ensures
        crate::wallet_structure::account::spends_selected(signed, selected),
        crate::wallet_structure::account::payment_shape(
            signed,
            account,
            to_address_bytes,
            amount,
            fee,
            input_total,
        ),
{
    assert(super::transaction_input::strip_scripts(signed) =~= super::transaction_input::strip_scripts(
        unsigned,
    )) by {
        assert(super::transaction_input::strip_scripts(signed).tx_in
            =~= super::transaction_input::strip_scripts(unsigned).tx_in);
    }
    assert(super::transaction_input::strip_scripts(signed) == super::transaction_input::strip_scripts(
        unsigned,
    ));
}

impl SerializableInternalOrder for Transaction {
    open spec fn io_bytes(&self) -> Seq<u8> {
        self.version.le_bytes() + (CompactSize { value: self.tx_in@.len() as u64 }).le_bytes()
            + items_io_bytes(self.tx_in@) + (CompactSize {
            value: self.tx_out@.len() as u64,
        }).le_bytes() + items_io_bytes(self.tx_out@) + le_bytes_of(self.time as nat, 4)
    }

    open spec fn io_wf(&self) -> bool {
        true
    }

    fn io_serialize(&self, stream: &mut Vec<u8>) -> (r: Result<(), ErrorSerialization>) {
        self.version.le_serialize(stream)?;
        CompactSize::new(self.tx_in.len() as u64).le_serialize(stream)?;
        io_serialize_items(stream, &self.tx_in)?;
        CompactSize::new(self.tx_out.len() as u64).le_serialize(stream)?;
        io_serialize_items(stream, &self.tx_out)?;
        self.time.le_serialize(stream)?;
        proof {
            assert(stream@ =~= old(stream)@ + self.io_bytes());
        }
        Ok(())
    }
}

impl DeserializableInternalOrder for Transaction {
    open spec fn io_parse(data: Seq<u8>) -> Option<(TransactionView, Seq<u8>)> {
        match <i32 as DeserializableLittleEndian>::le_parse(data) {
            Some((version, rest)) => match <CompactSize as DeserializableLittleEndian>::le_parse(
                rest,
            ) {
                Some((in_count, rest)) => match items_io_parse::<TransactionInput>(
                    rest,
                    in_count.value as nat,
                ) {
                    Some((tx_in, rest)) => match <
                        CompactSize as DeserializableLittleEndian
                    >::le_parse(rest) {
                        Some((out_count, rest)) => match items_io_parse::<TransactionOutput>(
                            rest,
                            out_count.value as nat,
                        ) {
                            Some((tx_out, rest)) => match <
                                u32 as DeserializableLittleEndian
                            >::le_parse(rest) {
                                Some((time, tail)) => Some(
                                    (TransactionView { version, tx_in, tx_out, time }, tail),
                                ),
                                None => None,
                            },
                            None => None,
                        },
                        None => None,
                    },
                    None => None,
                },
                None => None,
            },
            None => None,
        }
    }

    fn io_deserialize(stream: &mut &[u8]) -> (r: Result<Transaction, ErrorSerialization>) {
        let saved: &[u8] = *stream;
        let version = i32::le_deserialize(stream)?;
        let result = Transaction::io_deserialize_body(stream, version);
        match result {
            Ok(out) => {
                proof {
                    let parsed = Transaction::io_parse(saved@).unwrap().0;
                    assert(out.deep_view() =~= parsed);
                }
                Ok(out)
            },
            Err(error) => {
                *stream = saved;
                Err(error)
            },
        }
    }

    #[verifier::rlimit(100)]
    proof fn lemma_io_round_trip(value: Transaction, rest: Seq<u8>) {
        assert(value.tx_in@.len() <= usize::MAX) by {
            assert(value.tx_in.len() == value.tx_in@.len());
        }
        assert(value.tx_out@.len() <= usize::MAX) by {
            assert(value.tx_out.len() == value.tx_out@.len());
        }
        let in_count = CompactSize { value: value.tx_in@.len() as u64 };
        let out_count = CompactSize { value: value.tx_out@.len() as u64 };
        let time_bytes = le_bytes_of(value.time as nat, 4);
        let part_outs = items_io_bytes(value.tx_out@) + (time_bytes + rest);
        let part_out_count = out_count.le_bytes() + part_outs;
        let part_ins = items_io_bytes(value.tx_in@) + part_out_count;
        let part_in_count = in_count.le_bytes() + part_ins;
        assert(value.io_bytes() + rest =~= value.version.le_bytes() + part_in_count);
        crate::serialization::deserializable_little_endian::lemma_i32_le_round_trip(
            value.version,
            part_in_count,
        );
        crate::messages::compact_size::lemma_compact_size_round_trip(in_count, part_ins);
        crate::serialization::deserializable_internal_order::lemma_items_io_round_trip::<
            TransactionInput,
        >(value.tx_in@, part_out_count);
        crate::messages::compact_size::lemma_compact_size_round_trip(out_count, part_outs);
        crate::serialization::deserializable_internal_order::lemma_items_io_round_trip::<
            TransactionOutput,
        >(value.tx_out@, time_bytes + rest);
        crate::serialization::deserializable_little_endian::lemma_u32_le_round_trip(
            value.time,
            rest,
        );
        assert(Transaction::io_parse(value.io_bytes() + rest) == Some(
            (value.deep_view(), rest),
        )) by {
            assert(Seq::new(value.tx_in@.len(), |i: int| value.tx_in@[i].deep_view())
                =~= value.tx_in.deep_view());
            assert(Seq::new(value.tx_out@.len(), |i: int| value.tx_out@[i].deep_view())
                =~= value.tx_out.deep_view());
            assert(TransactionView {
                version: value.version,
                tx_in: value.tx_in.deep_view(),
                tx_out: value.tx_out.deep_view(),
                time: value.time,
            } =~= value.deep_view());
        }
    }
}

impl Transaction {
    /// Reads the lists and time of a transaction whose version is already
    /// read.
    fn io_deserialize_body(stream: &mut &[u8], version: i32) -> (r: Result<
        Transaction,
        ErrorSerialization,
    >)
        ensures
            (r matches Ok(v) ==> {
                &&& v.version == version
                &&& (match <CompactSize as DeserializableLittleEndian>::le_parse(old(stream)@) {
                    Some((in_count, rest)) => match items_io_parse::<TransactionInput>(
                        rest,
                        in_count.value as nat,
                    ) {
                        Some((tx_in, rest)) => match <
                            CompactSize as DeserializableLittleEndian
                        >::le_parse(rest) {
                            Some((out_count, rest)) => match items_io_parse::<TransactionOutput>(
                                rest,
                                out_count.value as nat,
                            ) {
                                Some((tx_out, rest)) => match <
                                    u32 as DeserializableLittleEndian
                                >::le_parse(rest) {
                                    Some((time, tail)) => v.tx_in.deep_view() == tx_in
                                        && v.tx_out.deep_view() == tx_out && v.time == time
                                        && final(stream)@ == tail,
                                    None => false,
                                },
                                None => false,
                            },
                            None => false,
                        },
                        None => false,
                    },
                    None => false,
                })
            }),
            (r is Err ==> (match <CompactSize as DeserializableLittleEndian>::le_parse(
                old(stream)@,
            ) {
                Some((in_count, rest)) => match items_io_parse::<TransactionInput>(
                    rest,
                    in_count.value as nat,
                ) {
                    Some((tx_in, rest)) => match <
                        CompactSize as DeserializableLittleEndian
                    >::le_parse(rest) {
                        Some((out_count, rest)) => match items_io_parse::<TransactionOutput>(
                            rest,
                            out_count.value as nat,
                        ) {
                            Some((tx_out, rest)) => <u32 as DeserializableLittleEndian>::le_parse(
                                rest,
                            ) is None,
                            None => true,
                        },
                        None => true,
                    },
                    None => true,
                },
                None => true,
            })),
    {
        let saved: &[u8] = *stream;
        let in_count = CompactSize::le_deserialize(stream)?;
        let tx_in = match io_deserialize_items::<TransactionInput>(stream, in_count.value) {
            Ok(tx_in) => tx_in,
            Err(error) => {
                *stream = saved;
                return Err(error);
            },
        };
        let out_count = match CompactSize::le_deserialize(stream) {
            Ok(out_count) => out_count,
            Err(error) => {
                *stream = saved;
                return Err(error);
            },
        };
        let tx_out = match io_deserialize_items::<TransactionOutput>(stream, out_count.value) {
            Ok(tx_out) => tx_out,
            Err(error) => {
                *stream = saved;
                return Err(error);
            },
        };
        let time = match u32::le_deserialize(stream) {
            Ok(time) => time,
            Err(error) => {
                *stream = saved;
                return Err(error);
            },
        };
        Ok(Transaction { version, tx_in, tx_out, time })
    }
}

} // verus!
