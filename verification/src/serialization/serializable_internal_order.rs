use vstd::prelude::*;

use super::error_serialization::ErrorSerialization;

verus! {

/// A value with a composite wire encoding in Bitcoin's internal field order.
pub trait SerializableInternalOrder {
    /// The wire bytes of this value.
    spec fn io_bytes(&self) -> Seq<u8>;

    /// Whether the value is internally consistent, so that its encoding
    /// reads back as the same value.
    spec fn io_wf(&self) -> bool;

    /// Appends the value's wire bytes to `stream`.
    fn io_serialize(&self, stream: &mut Vec<u8>) -> (r: Result<(), ErrorSerialization>)
        ensures
            r is Ok,
            final(stream)@ == old(stream)@ + self.io_bytes(),
    ;
}

/// The wire bytes of the given values, one after the other.
pub open spec fn items_io_bytes<T: SerializableInternalOrder>(items: Seq<T>) -> Seq<u8>
    decreases items.len(),
{
    if items.len() == 0 {
        Seq::empty()
    } else {
        items[0].io_bytes() + items_io_bytes(items.drop_first())
    }
}

/// Encoding one more value appends its bytes.
pub proof fn lemma_items_io_bytes_snoc<T: SerializableInternalOrder>(items: Seq<T>, item: T)
    ensures
        items_io_bytes(items.push(item)) == items_io_bytes(items) + item.io_bytes(),
    decreases items.len(),
{
    if items.len() == 0 {
        assert(items.push(item).drop_first() =~= Seq::<T>::empty());
        assert(items_io_bytes(Seq::<T>::empty()) =~= Seq::<u8>::empty());
        assert(items.push(item)[0] == item);
        assert(items_io_bytes(items.push(item)) =~= item.io_bytes());
        assert(items_io_bytes(items) =~= Seq::<u8>::empty());
        assert(items_io_bytes(items.push(item)) =~= items_io_bytes(items) + item.io_bytes());
    } else {
        lemma_items_io_bytes_snoc(items.drop_first(), item);
        assert(items.push(item).drop_first() =~= items.drop_first().push(item));
        assert(items_io_bytes(items.push(item)) =~= items_io_bytes(items) + item.io_bytes());
    }
}

/// Appends the wire bytes of every value in `items`, in order.
pub fn io_serialize_items<T: SerializableInternalOrder>(stream: &mut Vec<u8>, items: &Vec<T>) -> (r:
    Result<(), ErrorSerialization>)
    ensures
        r is Ok,
        final(stream)@ == old(stream)@ + items_io_bytes(items@),
{
    let mut i: usize = 0;
    proof {
        assert(items@.take(0) =~= Seq::<T>::empty());
        assert(stream@ =~= stream@ + items_io_bytes(items@.take(0)));
    }
    while i < items.len()
        invariant
            i <= items@.len(),
            stream@ == old(stream)@ + items_io_bytes(items@.take(i as int)),
        decreases items@.len() - i,
    {
        let r = items[i].io_serialize(stream);
        proof {
            lemma_items_io_bytes_snoc(items@.take(i as int), items@[i as int]);
            assert(items@.take(i + 1) =~= items@.take(i as int).push(items@[i as int]));
        }
        match r {
            Ok(_) => {},
            Err(error) => {
                return Err(error);
            },
        }
        i = i + 1;
    }
    proof {
        assert(items@.take(items@.len() as int) =~= items@);
    }
    Ok(())
}

/// Appends a fixed-size byte array to `stream`.
pub fn write_array<const N: usize>(stream: &mut Vec<u8>, bytes: &[u8; N])
    ensures
        final(stream)@ == old(stream)@ + bytes@,
{
    let mut i: usize = 0;
    proof {
        assert(stream@ =~= stream@ + bytes@.take(0));
    }
    while i < N
        invariant
            i <= N,
            stream@ == old(stream)@ + bytes@.take(i as int),
        decreases N - i,
    {
        stream.push(bytes[i]);
        proof {
            assert(old(stream)@ + bytes@.take(i + 1) =~= stream@);
        }
        i = i + 1;
    }
    proof {
        assert(bytes@.take(N as int) =~= bytes@);
    }
}

/// Appends a byte slice to `stream`.
pub fn write_slice(stream: &mut Vec<u8>, bytes: &[u8])
    ensures
        final(stream)@ == old(stream)@ + bytes@,
{
    let mut i: usize = 0;
    proof {
        assert(stream@ =~= stream@ + bytes@.take(0));
    }
    while i < bytes.len()
        invariant
            i <= bytes@.len(),
            stream@ == old(stream)@ + bytes@.take(i as int),
        decreases bytes@.len() - i,
    {
        stream.push(bytes[i]);
        proof {
            assert(old(stream)@ + bytes@.take(i + 1) =~= stream@);
        }
        i = i + 1;
    }
    proof {
        assert(bytes@.take(bytes@.len() as int) =~= bytes@);
    }
}

impl<const N: usize> SerializableInternalOrder for [u8; N] {
    open spec fn io_bytes(&self) -> Seq<u8> {
        self@
    }

    open spec fn io_wf(&self) -> bool {
        true
    }

    #[verifier::rlimit(100)]
    fn io_serialize(&self, stream: &mut Vec<u8>) -> (r: Result<(), ErrorSerialization>) {
        write_array(stream, self);
        proof {
            assert(self.io_bytes() == self@);
            assert(stream@ =~= old(stream)@ + self.io_bytes());
        }
        Ok(())
    }
}

impl SerializableInternalOrder for Vec<u8> {
    open spec fn io_bytes(&self) -> Seq<u8> {
        self@
    }

    open spec fn io_wf(&self) -> bool {
        true
    }

    fn io_serialize(&self, stream: &mut Vec<u8>) -> (r: Result<(), ErrorSerialization>) {
        write_slice(stream, self.as_slice());
        proof {
            assert(stream@ =~= old(stream)@ + self@);
        }
        Ok(())
    }
}

} // verus!
