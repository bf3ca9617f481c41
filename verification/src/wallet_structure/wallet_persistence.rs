use vstd::prelude::*;

use vstd::utf8::{decode_utf8, encode_utf8, valid_utf8};

use super::account::Account;
use super::address::AddressType;
use super::error_wallet::ErrorWallet;
use super::private_key::PrivateKeyType;
use super::public_key::PublicKeyType;
use super::wallet::Wallet;
use crate::messages::compact_size::CompactSize;
use crate::serialization::deserializable_internal_order::read_array;
use crate::serialization::deserializable_little_endian::DeserializableLittleEndian;
use crate::serialization::encoding::le_bytes_of;
use crate::serialization::error_serialization::ErrorSerialization;
use crate::serialization::primitives::read_bytes;
use crate::serialization::serializable_internal_order::{write_array, write_slice};
use crate::serialization::serializable_little_endian::SerializableLittleEndian;

verus! {

/// The UTF-8 bytes of a string behind a compact-size length prefix.
pub open spec fn prefixed_string_bytes(text: Seq<char>) -> Seq<u8> {
    (CompactSize { value: encode_utf8(text).len() as u64 }).le_bytes() + encode_utf8(text)
}

/// One account record of the wallet blob: the name, the key material, the
/// address bytes, and the address's string form.
pub open spec fn account_record_bytes(account: Account) -> Seq<u8> {
    prefixed_string_bytes(account.account_name@) + account.private_key.key_bytes@
        + account.public_key.bytes@ + account.address.address_bytes@ + prefixed_string_bytes(
        account.address.address_string@,
    )
}

/// The account records of the wallet blob, one after the other.
pub open spec fn account_records_bytes(accounts: Seq<Account>) -> Seq<u8>
    decreases accounts.len(),
{
    if accounts.len() == 0 {
        Seq::empty()
    } else {
        account_record_bytes(accounts[0]) + account_records_bytes(accounts.drop_first())
    }
}

/// Encoding one more account appends its record.
pub proof fn lemma_account_records_bytes_snoc(accounts: Seq<Account>, account: Account)
    ensures
        account_records_bytes(accounts.push(account)) == account_records_bytes(accounts)
            + account_record_bytes(account),
    decreases accounts.len(),
{
    if accounts.len() == 0 {
        assert(accounts.push(account).drop_first() =~= Seq::<Account>::empty());
        assert(account_records_bytes(Seq::<Account>::empty()) =~= Seq::<u8>::empty());
        assert(accounts.push(account)[0] == account);
        assert(account_records_bytes(accounts.push(account)) =~= account_records_bytes(accounts)
            + account_record_bytes(account));
    } else {
        lemma_account_records_bytes_snoc(accounts.drop_first(), account);
        assert(accounts.push(account).drop_first() =~= accounts.drop_first().push(account));
        assert(account_records_bytes(accounts.push(account)) =~= account_records_bytes(accounts)
            + account_record_bytes(account));
    }
}

/// The on-disk code for the selection: its index, or `u64::MAX` for none.
pub open spec fn selected_code(wallet: Wallet) -> u64 {
    match wallet.selected {
        Some(index) => index as u64,
        None => u64::MAX,
    }
}

/// The whole wallet blob: the account count as a compact size, the account
/// records, and the selected-account code as eight little-endian bytes.
pub open spec fn wallet_blob_bytes(wallet: Wallet) -> Seq<u8> {
    (CompactSize { value: wallet.accounts@.len() as u64 }).le_bytes() + account_records_bytes(
        wallet.accounts@,
    ) + le_bytes_of(selected_code(wallet) as nat, 8)
}

/// The length-prefixed byte string a stream starts with, and what follows
/// it; a prefix over the four-byte ceiling is refused, as the reader
/// refuses it.
pub open spec fn prefixed_string_parse(data: Seq<u8>) -> Option<(Seq<u8>, Seq<u8>)> {
    match CompactSize::le_parse(data) {
        Some((count, rest)) => if count.value > u32::MAX as u64 {
            None
        } else if rest.len() >= count.value {
            Some((rest.take(count.value as int), rest.skip(count.value as int)))
        } else {
            None
        },
        None => None,
    }
}

/// One account record read back: name bytes, the 32 key bytes, the 33
/// public-key bytes, the 25 address bytes, and the address's string bytes.
pub open spec fn account_record_parse(data: Seq<u8>) -> Option<
    ((Seq<u8>, Seq<u8>, Seq<u8>, Seq<u8>, Seq<u8>), Seq<u8>),
> {
    match prefixed_string_parse(data) {
        Some((name, rest)) => if rest.len() >= 90 {
            match prefixed_string_parse(rest.skip(90)) {
                Some((address_text, tail)) => Some(
                    (
                        (name, rest.take(32), rest.skip(32).take(33), rest.skip(65).take(25),
                        address_text),
                        tail,
                    ),
                ),
                None => None,
            }
        } else {
            None
        },
        None => None,
    }
}

/// The `count` account records a stream starts with, and what follows them.
pub open spec fn account_records_parse(data: Seq<u8>, count: nat) -> Option<
    (Seq<(Seq<u8>, Seq<u8>, Seq<u8>, Seq<u8>, Seq<u8>)>, Seq<u8>),
>
    decreases count,
{
    if count == 0 {
        Some((Seq::empty(), data))
    } else {
        match account_record_parse(data) {
            Some((record, rest)) => match account_records_parse(rest, (count - 1) as nat) {
                Some((items, tail)) => Some((seq![record] + items, tail)),
                None => None,
            },
            None => None,
        }
    }
}

/// What a wallet blob holds: its account records and the selected-account
/// code, and what follows the blob.
pub open spec fn wallet_blob_parse(data: Seq<u8>) -> Option<
    ((Seq<(Seq<u8>, Seq<u8>, Seq<u8>, Seq<u8>, Seq<u8>)>, u64), Seq<u8>),
> {
    match CompactSize::le_parse(data) {
        Some((count, rest)) => match account_records_parse(rest, count.value as nat) {
            Some((records, rest)) => match <u64 as DeserializableLittleEndian>::le_parse(rest) {
                Some((code, tail)) => Some(((records, code), tail)),
                None => None,
            },
            None => None,
        },
        None => None,
    }
}

/// Whether one parsed record makes an account the constructor accepts: both
/// strings are UTF-8, the key is valid, the public key is the key's, and the
/// address text and bytes are the public key's.
pub open spec fn account_record_accepted(
    record: (Seq<u8>, Seq<u8>, Seq<u8>, Seq<u8>, Seq<u8>),
) -> bool {
    &&& valid_utf8(record.0)
    &&& valid_utf8(record.4)
    &&& super::private_key::secp_key_valid(record.1)
    &&& record.2 == super::private_key::secp_public_key_of(record.1)
    &&& decode_utf8(record.4).len() == 34
    &&& (exists|b: Seq<u8>|
        decode_utf8(record.4) == #[trigger] super::address::base58_of(b) && b.len() == 25)
    &&& decode_utf8(record.4) == super::address::base58_of(
        super::address::address_bytes_of(
            crate::block_structure::hash::hash160_of(record.2),
        ),
    )
    &&& record.3 == super::address::address_bytes_of(
        crate::block_structure::hash::hash160_of(record.2),
    )
}

/// Whether parsed records and the selection code make a wallet the loader
/// accepts: every record accepted, no name repeated, the code in range or
/// the none marker.
pub open spec fn wallet_records_valid(
    records: Seq<(Seq<u8>, Seq<u8>, Seq<u8>, Seq<u8>, Seq<u8>)>,
    code: u64,
) -> bool {
    &&& (forall|i: int| 0 <= i < records.len() ==> account_record_accepted(#[trigger] records[i]))
    &&& (forall|i: int, j: int|
        0 <= i < j < records.len() ==> (#[trigger] records[i]).0 != (#[trigger] records[j]).0)
    &&& (code == u64::MAX || code < records.len())
}

/// The records a run of accounts stands for.
pub open spec fn wallet_records_of(accounts: Seq<Account>) -> Seq<
    (Seq<u8>, Seq<u8>, Seq<u8>, Seq<u8>, Seq<u8>),
> {
    Seq::new(
        accounts.len(),
        |i: int| (
            encode_utf8(accounts[i].account_name@),
            accounts[i].private_key.key_bytes@,
            accounts[i].public_key.bytes@,
            accounts[i].address.address_bytes@,
            encode_utf8(accounts[i].address.address_string@),
        ),
    )
}

/// A successful account-record parse returns exactly `count` records.
pub proof fn lemma_account_records_parse_len(data: Seq<u8>, count: nat)
    ensures
        account_records_parse(data, count) matches Some((records, tail)) ==> records.len()
            == count,
    decreases count,
{
    if count > 0 {
        match account_record_parse(data) {
            Some((record, rest)) => {
                lemma_account_records_parse_len(rest, (count - 1) as nat);
            },
            None => {},
        }
    }
}

/// Appends a string's record: its UTF-8 byte count as a compact size, then
/// the bytes themselves.
fn write_prefixed_string(stream: &mut Vec<u8>, text: &str) -> (r: Result<(), ErrorSerialization>)
    ensures
        r is Ok,
        final(stream)@ == old(stream)@ + prefixed_string_bytes(text@),
{
    let bytes = text.as_bytes();
    CompactSize::new(bytes.len() as u64).le_serialize(stream)?;
    write_slice(stream, bytes);
    proof {
        assert(stream@ =~= old(stream)@ + prefixed_string_bytes(text@));
    }
    Ok(())
}

/// Reads a string's record back; refused when the stream runs out or the
/// bytes are not UTF-8.
fn read_prefixed_string(stream: &mut &[u8]) -> (r: Result<String, ErrorSerialization>)
    ensures
        (r is Ok <==> (match prefixed_string_parse(old(stream)@) {
            Some((bytes, tail)) => valid_utf8(bytes),
            None => false,
        })),
        (r matches Ok(text) ==> (match prefixed_string_parse(old(stream)@) {
            Some((bytes, tail)) => {
                &&& encode_utf8(text@) == bytes
                &&& text@ == decode_utf8(bytes)
                &&& final(stream)@ == tail
            },
            None => false,
        })),
{
    let count = match CompactSize::le_deserialize(stream) {
        Ok(count) => count,
        Err(error) => {
            return Err(error);
        },
    };
    if count.value > u32::MAX as u64 {
        return Err(ErrorSerialization::ErrorWhileReading);
    }
    let bytes = match read_bytes(stream, count.value as usize) {
        Some(bytes) => bytes,
        None => {
            return Err(ErrorSerialization::ErrorWhileReading);
        },
    };
    let ghost byte_view = bytes@;
    match crate::serialization::deserializable_fix_size::string_from_utf8(bytes) {
        Some(text) => {
            proof {
                vstd::utf8::encode_utf8_decode_utf8(text@);
                assert(text@ == decode_utf8(byte_view));
            }
            Ok(text)
        },
        None => Err(ErrorSerialization::ErrorWhileReading),
    }
}

/// A string's record reads back as its UTF-8 bytes, leaving what followed.
pub proof fn lemma_prefixed_string_round_trip(text: Seq<char>, rest: Seq<u8>)
    requires
        encode_utf8(text).len() <= u32::MAX,
    ensures
        prefixed_string_parse(prefixed_string_bytes(text) + rest) == Some(
            (encode_utf8(text), rest),
        ),
{
    let bytes = encode_utf8(text);
    let count = CompactSize { value: bytes.len() as u64 };
    assert(prefixed_string_bytes(text) + rest =~= count.le_bytes() + (bytes + rest));
    crate::messages::compact_size::lemma_compact_size_round_trip(count, bytes + rest);
    assert((bytes + rest).take(bytes.len() as int) =~= bytes);
    assert((bytes + rest).skip(bytes.len() as int) =~= rest);
}

/// An account's record reads back as its fields' bytes, leaving what
/// followed.
#[verifier::rlimit(100)]
pub proof fn lemma_account_record_round_trip(account: Account, rest: Seq<u8>)
    requires
        encode_utf8(account.account_name@).len() <= u32::MAX,
        encode_utf8(account.address.address_string@).len() <= u32::MAX,
    ensures
        account_record_parse(account_record_bytes(account) + rest) == Some(
            (
                (
                    encode_utf8(account.account_name@),
                    account.private_key.key_bytes@,
                    account.public_key.bytes@,
                    account.address.address_bytes@,
                    encode_utf8(account.address.address_string@),
                ),
                rest,
            ),
        ),
{
    broadcast use vstd::array::group_array_axioms;

    let key = account.private_key.key_bytes@;
    let publics = account.public_key.bytes@;
    let addr = account.address.address_bytes@;
    let tail_text = prefixed_string_bytes(account.address.address_string@) + rest;
    let body = key + publics + addr + tail_text;
    assert(account_record_bytes(account) + rest =~= prefixed_string_bytes(
        account.account_name@,
    ) + body);
    lemma_prefixed_string_round_trip(account.account_name@, body);
    assert(body.take(32) =~= key);
    assert(body.skip(32).take(33) =~= publics);
    assert(body.skip(65).take(25) =~= addr);
    assert(body.skip(90) =~= tail_text);
    lemma_prefixed_string_round_trip(account.address.address_string@, rest);
}

/// A run of account records reads back as the accounts' fields, in order.
pub proof fn lemma_account_records_round_trip(accounts: Seq<Account>, rest: Seq<u8>)
    requires
        forall|i: int|
            0 <= i < accounts.len() ==> encode_utf8(
                (#[trigger] accounts[i]).account_name@,
            ).len() <= u32::MAX && encode_utf8(accounts[i].address.address_string@).len()
                <= u32::MAX,
    ensures
        account_records_parse(account_records_bytes(accounts) + rest, accounts.len() as nat)
            == Some((wallet_records_of(accounts), rest)),
    decreases accounts.len(),
{
    if accounts.len() == 0 {
        assert(account_records_bytes(accounts) + rest =~= rest);
        assert(wallet_records_of(accounts) =~= Seq::<
            (Seq<u8>, Seq<u8>, Seq<u8>, Seq<u8>, Seq<u8>),
        >::empty());
    } else {
        let head = accounts[0];
        let tail = accounts.drop_first();
        assert(account_records_bytes(accounts) + rest =~= account_record_bytes(head) + (
        account_records_bytes(tail) + rest));
        lemma_account_record_round_trip(head, account_records_bytes(tail) + rest);
        lemma_account_records_round_trip(tail, rest);
        assert(seq![
            (
                encode_utf8(head.account_name@),
                head.private_key.key_bytes@,
                head.public_key.bytes@,
                head.address.address_bytes@,
                encode_utf8(head.address.address_string@),
            ),
        ] + wallet_records_of(tail) =~= wallet_records_of(accounts));
    }
}

/// The wallet blob reads back as exactly the wallet it was written from:
/// its account records and its selection code, leaving what followed.
#[verifier::rlimit(100)]
pub proof fn lemma_wallet_blob_round_trip(wallet: Wallet, rest: Seq<u8>)
    requires
        wallet.accounts@.len() <= u64::MAX,
        forall|i: int|
            0 <= i < wallet.accounts@.len() ==> encode_utf8(
                (#[trigger] wallet.accounts@[i]).account_name@,
            ).len() <= u32::MAX && encode_utf8(
                wallet.accounts@[i].address.address_string@,
            ).len() <= u32::MAX,
    ensures
        wallet_blob_parse(wallet_blob_bytes(wallet) + rest) == Some(
            ((wallet_records_of(wallet.accounts@), selected_code(wallet)), rest),
        ),
{
    let count = CompactSize { value: wallet.accounts@.len() as u64 };
    let records_bytes = account_records_bytes(wallet.accounts@);
    let code_bytes = le_bytes_of(selected_code(wallet) as nat, 8);
    assert(wallet_blob_bytes(wallet) + rest =~= count.le_bytes() + (records_bytes + (code_bytes
        + rest)));
    crate::messages::compact_size::lemma_compact_size_round_trip(
        count,
        records_bytes + (code_bytes + rest),
    );
    lemma_account_records_round_trip(wallet.accounts@, code_bytes + rest);
    crate::serialization::deserializable_little_endian::lemma_u64_le_round_trip(
        selected_code(wallet),
        rest,
    );
}


/// A wallet of well-formed accounts whose address strings are their bytes'
/// Base58 text, with distinct names and a selection in range, parses back as
/// records the loader accepts.
pub proof fn lemma_wallet_blob_accepted(wallet: Wallet)
    requires
        wallet.wf(),
        forall|k: int| 0 <= k < wallet.accounts@.len() ==> (#[trigger] wallet.accounts@[k]).wf(),
        forall|k: int|
            0 <= k < wallet.accounts@.len() ==> (
            #[trigger] wallet.accounts@[k]).address.address_string@
                == super::address::base58_of(wallet.accounts@[k].address.address_bytes@)
                && wallet.accounts@[k].address.address_string@.len() == 34
                && wallet.accounts@[k].address.address_bytes@.len() == 25,
    ensures
        wallet_records_valid(wallet_records_of(wallet.accounts@), selected_code(wallet)),
{
    let records = wallet_records_of(wallet.accounts@);
    assert forall|i: int|
        0 <= i < records.len() implies account_record_accepted(#[trigger] records[i]) by {
        let account = wallet.accounts@[i];
        vstd::utf8::encode_utf8_decode_utf8(account.account_name@);
        vstd::utf8::encode_utf8_decode_utf8(account.address.address_string@);
        vstd::utf8::encode_utf8_valid_utf8(account.account_name@);
        vstd::utf8::encode_utf8_valid_utf8(account.address.address_string@);
        assert(decode_utf8(records[i].4) == account.address.address_string@);
        assert(records[i].3 == account.address.address_bytes@);
        assert(exists|b: Seq<u8>|
            decode_utf8(records[i].4) == #[trigger] super::address::base58_of(b) && b.len()
                == 25) by {
            assert(decode_utf8(records[i].4) == super::address::base58_of(
                account.address.address_bytes@,
            ));
        }
    }
    assert forall|i: int, j: int|
        0 <= i < j < records.len() implies (#[trigger] records[i]).0 != (
    #[trigger] records[j]).0 by {
        if records[i].0 == records[j].0 {
            vstd::utf8::encode_utf8_decode_utf8(wallet.accounts@[i].account_name@);
            vstd::utf8::encode_utf8_decode_utf8(wallet.accounts@[j].account_name@);
            assert(wallet.accounts@[i].account_name@ == wallet.accounts@[j].account_name@);
            assert(false);
        }
    }
}

impl Wallet {
    /// Appends the wallet's persisted form, ready to be written to disk on a
    /// clean shutdown.
    pub fn save_to_bytes(&self, stream: &mut Vec<u8>) -> (r: Result<(), ErrorSerialization>)
        ensures
            r is Ok,
            final(stream)@ == old(stream)@ + wallet_blob_bytes(*self),
    {
        CompactSize::new(self.accounts.len() as u64).le_serialize(stream)?;
        let ghost records_from = stream@;
        let mut i: usize = 0;
        proof {
            assert(self.accounts@.take(0) =~= Seq::<Account>::empty());
            assert(stream@ =~= records_from + account_records_bytes(self.accounts@.take(0)));
        }
        while i < self.accounts.len()
            invariant
                i <= self.accounts@.len(),
                stream@ == records_from + account_records_bytes(self.accounts@.take(i as int)),
            decreases self.accounts@.len() - i,
        {
            let ghost pre = stream@;
            let account = &self.accounts[i];
            write_prefixed_string(stream, account.account_name.as_str())?;
            write_array(stream, &account.private_key.key_bytes);
            write_array(stream, &account.public_key.bytes);
            write_array(stream, &account.address.address_bytes);
            write_prefixed_string(stream, account.address.address_string.as_str())?;
            proof {
                lemma_account_records_bytes_snoc(
                    self.accounts@.take(i as int),
                    self.accounts@[i as int],
                );
                assert(self.accounts@.take(i + 1) =~= self.accounts@.take(i as int).push(
                    self.accounts@[i as int],
                ));
                assert(stream@ =~= pre + account_record_bytes(self.accounts@[i as int]));
            }
            i = i + 1;
        }
        proof {
            assert(self.accounts@.take(self.accounts@.len() as int) =~= self.accounts@);
        }
        let code: u64 = match self.selected {
            Some(index) => index as u64,
            None => u64::MAX,
        };
        code.le_serialize(stream)?;
        proof {
            assert(code == selected_code(*self));
            assert(stream@ =~= old(stream)@ + wallet_blob_bytes(*self));
        }
        Ok(())
    }

    /// Reads a wallet blob back. Every record passes through the account
    /// constructor, so a key the curve library refuses, a public key that is
    /// not the private key's, or an address that is not the public key's is
    /// refused; so are a repeated name, redundant address bytes that do not
    /// match, and a selection out of range.
    #[verifier::rlimit(100)]
    pub fn load_from_bytes(stream: &mut &[u8]) -> (r: Result<Wallet, ErrorWallet>)
        ensures
            (r is Ok <==> (match wallet_blob_parse(old(stream)@) {
                Some(((records, code), tail)) => wallet_records_valid(records, code),
                None => false,
            })),
            (r matches Ok(w) ==> w.wf() && (match wallet_blob_parse(old(stream)@) {
                Some(((records, code), tail)) => {
                    &&& w.accounts@.len() == records.len()
                    &&& wallet_records_of(w.accounts@) == records
                    &&& (forall|k: int|
                        0 <= k < w.accounts@.len() ==> (#[trigger] w.accounts@[k]).wf())
                    &&& w.selected == (if code == u64::MAX {
                        None::<usize>
                    } else {
                        Some(code as usize)
                    })
                    &&& final(stream)@ == tail
                },
                None => false,
            })),
    {
        let count = match CompactSize::le_deserialize(stream) {
            Ok(count) => count,
            Err(_) => {
                return Err(ErrorWallet::CannotCreateAddress(
                    "the wallet blob's account count did not read back".to_string(),
                ));
            },
        };
        let ghost entry_start = stream@;
        let mut wallet = Wallet::new();
        let mut i: u64 = 0;
        while i < count.value
            invariant
                wallet.wf(),
                wallet.accounts@.len() == i <= count.value,
                forall|k: int|
                    0 <= k < wallet.accounts@.len() ==> (#[trigger] wallet.accounts@[k]).wf(),
                CompactSize::le_parse(old(stream)@) == Some::<(CompactSize, Seq<u8>)>(
                    (count, entry_start),
                ),
                account_records_parse(entry_start, count.value as nat) == (
                match account_records_parse(stream@, (count.value - i) as nat) {
                    Some((more, tail)) => Some::<
                        (Seq<(Seq<u8>, Seq<u8>, Seq<u8>, Seq<u8>, Seq<u8>)>, Seq<u8>),
                    >((wallet_records_of(wallet.accounts@) + more, tail)),
                    None => None::<(Seq<(Seq<u8>, Seq<u8>, Seq<u8>, Seq<u8>, Seq<u8>)>, Seq<u8>)>,
                }),
                forall|k: int|
                    0 <= k < wallet.accounts@.len() ==> account_record_accepted(
                        #[trigger] wallet_records_of(wallet.accounts@)[k],
                    ),
            decreases count.value - i,
        {
            let ghost pre = stream@;
            let ghost records_pre = wallet_records_of(wallet.accounts@);
            let name = match read_prefixed_string(stream) {
                Ok(name) => name,
                Err(_) => {
                    proof {
                        assert(account_record_parse(pre) matches Some((record, tail)) ==> (
                        !valid_utf8(record.0)));
                        if account_record_parse(pre) is None {
                            assert(account_records_parse(pre, (count.value - i) as nat) is None);
                            assert(wallet_blob_parse(old(stream)@) is None);
                        } else {
                            let full = wallet_blob_parse(old(stream)@);
                            match full {
                                Some(((records, code), tail)) => {
                                    assert(!account_record_accepted(records[i as int]));
                                    assert(!wallet_records_valid(records, code));
                                },
                                None => {},
                            }
                        }
                    }
                    return Err(ErrorWallet::CannotCreateAddress(
                        "an account name did not read back".to_string(),
                    ));
                },
            };
            let ghost after_name = stream@;
            let private_key_bytes: PrivateKeyType = match read_array::<32>(stream) {
                Some(private_key_bytes) => private_key_bytes,
                None => {
                    proof {
                        assert(after_name.len() < 32);
                        assert(account_record_parse(pre) is None);
                        assert(account_records_parse(pre, (count.value - i) as nat) is None);
                        assert(wallet_blob_parse(old(stream)@) is None);
                    }
                    return Err(ErrorWallet::CannotCreateAddress(
                        "a private key did not read back".to_string(),
                    ));
                },
            };
            let public_key_bytes: PublicKeyType = match read_array::<33>(stream) {
                Some(public_key_bytes) => public_key_bytes,
                None => {
                    proof {
                        assert(after_name.len() < 65);
                        assert(account_record_parse(pre) is None);
                        assert(account_records_parse(pre, (count.value - i) as nat) is None);
                        assert(wallet_blob_parse(old(stream)@) is None);
                    }
                    return Err(ErrorWallet::CannotCreateAddress(
                        "a public key did not read back".to_string(),
                    ));
                },
            };
            let address_bytes: AddressType = match read_array::<25>(stream) {
                Some(address_bytes) => address_bytes,
                None => {
                    proof {
                        assert(after_name.len() < 90);
                        assert(account_record_parse(pre) is None);
                        assert(account_records_parse(pre, (count.value - i) as nat) is None);
                        assert(wallet_blob_parse(old(stream)@) is None);
                    }
                    return Err(ErrorWallet::CannotCreateAddress(
                        "an address did not read back".to_string(),
                    ));
                },
            };
            proof {
                assert(private_key_bytes@ =~= after_name.take(32));
                assert(public_key_bytes@ =~= after_name.skip(32).take(33));
                assert(address_bytes@ =~= after_name.skip(65).take(25));
                assert(stream@ =~= after_name.skip(90));
            }
            let address_string = match read_prefixed_string(stream) {
                Ok(address_string) => address_string,
                Err(_) => {
                    proof {
                        if account_record_parse(pre) is None {
                            assert(account_records_parse(pre, (count.value - i) as nat) is None);
                            assert(wallet_blob_parse(old(stream)@) is None);
                        } else {
                            let full = wallet_blob_parse(old(stream)@);
                            match full {
                                Some(((records, code), tail)) => {
                                    assert(!valid_utf8(records[i as int].4));
                                    assert(!account_record_accepted(records[i as int]));
                                    assert(!wallet_records_valid(records, code));
                                },
                                None => {},
                            }
                        }
                    }
                    return Err(ErrorWallet::CannotCreateAddress(
                        "an address string did not read back".to_string(),
                    ));
                },
            };
            let ghost record = (
                encode_utf8(name@),
                private_key_bytes@,
                public_key_bytes@,
                address_bytes@,
                encode_utf8(address_string@),
            );
            proof {
                assert(account_record_parse(pre) == Some::<
                    ((Seq<u8>, Seq<u8>, Seq<u8>, Seq<u8>, Seq<u8>), Seq<u8>),
                >((record, stream@)));
                match account_records_parse(stream@, (count.value - i - 1) as nat) {
                    Some((more, tail)) => {
                        assert(account_records_parse(pre, (count.value - i) as nat) == Some::<
                            (Seq<(Seq<u8>, Seq<u8>, Seq<u8>, Seq<u8>, Seq<u8>)>, Seq<u8>),
                        >((seq![record] + more, tail)));
                    },
                    None => {
                        assert(account_records_parse(pre, (count.value - i) as nat) is None);
                    },
                }
            }
            let account = match Account::new(
                name.as_str(),
                &private_key_bytes,
                &public_key_bytes,
                address_string.as_str(),
            ) {
                Ok(account) => account,
                Err(_) => {
                    proof {
                        match wallet_blob_parse(old(stream)@) {
                            Some(((records, code), tail)) => {
                                assert(records[i as int] == record);
                                assert(!account_record_accepted(record));
                                assert(!wallet_records_valid(records, code));
                            },
                            None => {},
                        }
                    }
                    return Err(ErrorWallet::CannotCreateAddress(
                        "the record does not make an account".to_string(),
                    ));
                },
            };
            if !crate::serialization::primitives::bytes_equal(
                address_bytes.as_slice(),
                account.address.address_bytes.as_slice(),
            ) {
                proof {
                    match wallet_blob_parse(old(stream)@) {
                        Some(((records, code), tail)) => {
                            assert(records[i as int] == record);
                            assert(account.address.address_bytes@
                                == super::address::address_bytes_of(
                                crate::block_structure::hash::hash160_of(public_key_bytes@),
                            ));
                            assert(!account_record_accepted(record));
                            assert(!wallet_records_valid(records, code));
                        },
                        None => {},
                    }
                }
                return Err(ErrorWallet::CannotCreateAddress(
                    "the stored address bytes are not the account's".to_string(),
                ));
            }
            let ghost account_view = account;
            if !wallet.add_account(account) {
                proof {
                    let j = choose|j: int|
                        0 <= j < records_pre.len() && wallet.accounts@[j].account_name@
                            == account_view.account_name@;
                    match wallet_blob_parse(old(stream)@) {
                        Some(((records, code), tail)) => {
                            assert(records[i as int] == record);
                            assert(records[j] == records_pre[j]);
                            assert(records[j].0 == encode_utf8(wallet.accounts@[j].account_name@));
                            assert(records[j].0 == record.0);
                            assert(!wallet_records_valid(records, code));
                        },
                        None => {},
                    }
                }
                return Err(ErrorWallet::CannotCreateAddress(
                    "the wallet blob repeats an account name".to_string(),
                ));
            }
            i = i + 1;
            proof {
                assert(wallet_records_of(wallet.accounts@) =~= records_pre.push(record)) by {
                    assert(wallet.accounts@.last() == account_view);
                }
                assert(account_record_accepted(record)) by {
                    vstd::utf8::encode_utf8_decode_utf8(address_string@);
                    assert(decode_utf8(record.4) == address_string@);
                    assert(account_view.address.address_bytes@
                        == super::address::address_bytes_of(
                        crate::block_structure::hash::hash160_of(public_key_bytes@),
                    ));
                }
                match account_records_parse(stream@, (count.value - i) as nat) {
                    Some((more, tail)) => {
                        assert(records_pre + (seq![record] + more) =~= records_pre.push(record)
                            + more);
                    },
                    None => {},
                }
            }
        }
        proof {
            assert(account_records_parse(stream@, 0) == Some::<
                (Seq<(Seq<u8>, Seq<u8>, Seq<u8>, Seq<u8>, Seq<u8>)>, Seq<u8>),
            >((Seq::empty(), stream@)));
            assert(wallet_records_of(wallet.accounts@) + Seq::<
                (Seq<u8>, Seq<u8>, Seq<u8>, Seq<u8>, Seq<u8>),
            >::empty() =~= wallet_records_of(wallet.accounts@));
        }
        let code = match u64::le_deserialize(stream) {
            Ok(code) => code,
            Err(_) => {
                proof {
                    assert(wallet_blob_parse(old(stream)@) is None);
                }
                return Err(ErrorWallet::CannotCreateAddress(
                    "the selected-account code did not read back".to_string(),
                ));
            },
        };
        proof {
            lemma_account_records_parse_len(entry_start, count.value as nat);
        }
        if code == u64::MAX {
            wallet.selected = None;
        } else {
            if code >= wallet.accounts.len() as u64 {
                proof {
                    match wallet_blob_parse(old(stream)@) {
                        Some(((records, parsed_code), tail)) => {
                            assert(records.len() == count.value);
                            assert(parsed_code == code);
                            assert(!wallet_records_valid(records, parsed_code));
                        },
                        None => {},
                    }
                }
                return Err(ErrorWallet::CannotCreateAddress(
                    "the selected-account code is out of range".to_string(),
                ));
            }
            wallet.selected = Some(code as usize);
        }
        proof {
            match wallet_blob_parse(old(stream)@) {
                Some(((records, parsed_code), tail)) => {
                    assert(records == wallet_records_of(wallet.accounts@));
                    assert(records.len() == count.value);
                    assert forall|a: int, b: int|
                        0 <= a < b < records.len() implies (#[trigger] records[a]).0 != (
                    #[trigger] records[b]).0 by {
                        if records[a].0 == records[b].0 {
                            assert(encode_utf8(wallet.accounts@[a].account_name@) == encode_utf8(
                                wallet.accounts@[b].account_name@,
                            ));
                            vstd::utf8::encode_utf8_decode_utf8(wallet.accounts@[a].account_name@);
                            vstd::utf8::encode_utf8_decode_utf8(wallet.accounts@[b].account_name@);
                            assert(wallet.accounts@[a].account_name@
                                == wallet.accounts@[b].account_name@);
                            assert(false);
                        }
                    }
                    assert(wallet_records_valid(records, parsed_code));
                },
                None => {
                    assert(false);
                },
            }
        }
        Ok(wallet)
    }
}

} // verus!
