use vstd::prelude::*;

use super::error_serialization::ErrorSerialization;
use super::serializable_internal_order::SerializableInternalOrder;

verus! {

/// A value that can be read back from its internal-order wire encoding.
/// Parsing lands in the value's deep view, the mathematical shape of the
/// value, so that contracts stay at the level of sequences and numbers.
pub trait DeserializableInternalOrder: SerializableInternalOrder + Sized + DeepView {
    /// Which value a byte stream starts with and what follows it; `None`
    /// when no value of this type starts the stream.
    spec fn io_parse(data: Seq<u8>) -> Option<(Self::V, Seq<u8>)>;

    /// Reads one value off the front of `stream`, advancing it past the
    /// value's bytes; on failure the stream is left unchanged.
    fn io_deserialize(stream: &mut &[u8]) -> (r: Result<Self, ErrorSerialization>)
        ensures
            (r matches Ok(v) ==> Self::io_parse(old(stream)@) == Some(
                (v.deep_view(), final(stream)@),
            )),
            (r is Err ==> Self::io_parse(old(stream)@) is None && final(stream)@ == old(
                stream,
            )@),
    ;

    /// Reading back a well-formed value's wire bytes gives the value, and
    /// leaves exactly what followed them.
    proof fn lemma_io_round_trip(value: Self, rest: Seq<u8>)
        requires
            value.io_wf(),
        ensures
            Self::io_parse(value.io_bytes() + rest) == Some((value.deep_view(), rest)),
    ;
}

/// The `count` values a byte stream starts with and what follows them;
/// `None` when it does not hold that many.
pub open spec fn items_io_parse<T: DeserializableInternalOrder>(data: Seq<u8>, count: nat) -> Option<
    (Seq<T::V>, Seq<u8>),
>
    decreases count,
{
    if count == 0 {
        Some((Seq::empty(), data))
    } else {
        match T::io_parse(data) {
            Some((item, rest)) => match items_io_parse::<T>(rest, (count - 1) as nat) {
                Some((items, tail)) => Some((seq![item] + items, tail)),
                None => None,
            },
            None => None,
        }
    }
}

/// Reads `count` values off the front of `stream`; on failure the stream is
/// left unchanged.
pub fn io_deserialize_items<T: DeserializableInternalOrder>(stream: &mut &[u8], count: u64) -> (r:
    Result<Vec<T>, ErrorSerialization>)
    ensures
        (r matches Ok(v) ==> v@.len() == count && items_io_parse::<T>(old(stream)@, count as nat)
            == Some((v.deep_view(), final(stream)@))),
        (r is Err ==> items_io_parse::<T>(old(stream)@, count as nat) is None && final(stream)@
            == old(stream)@),
{
    let saved: &[u8] = *stream;
    let mut items: Vec<T> = Vec::new();
    let mut i: u64 = 0;
    while i < count
        invariant
            i <= count,
            items@.len() == i,
            saved@ == old(stream)@,
            items_io_parse::<T>(saved@, count as nat) == (match items_io_parse::<T>(
                stream@,
                (count - i) as nat,
            ) {
                Some((more, tail)) => Some::<(Seq<T::V>, Seq<u8>)>(
                    (items.deep_view() + more, tail),
                ),
                None => None::<(Seq<T::V>, Seq<u8>)>,
            }),
        decreases count - i,
    {
        let ghost pre = stream@;
        let ghost vitems = items.deep_view();
        match T::io_deserialize(stream) {
            Ok(item) => {
                let ghost vitem = item.deep_view();
                items.push(item);
                proof {
                    assert(items.deep_view() =~= vitems.push(vitem));
                }
            },
            Err(error) => {
                proof {
                    assert(T::io_parse(pre) is None);
                    assert(items_io_parse::<T>(pre, (count - i) as nat) is None);
                }
                *stream = saved;
                return Err(error);
            },
        }
        i = i + 1;
        proof {
            let ghost vitem = items.deep_view().last();
            match items_io_parse::<T>(stream@, (count - i) as nat) {
                Some((more, tail)) => {
                    assert(vitems + (seq![vitem] + more) =~= vitems.push(vitem) + more);
                },
                None => {},
            }
        }
    }
    proof {
        assert(items_io_parse::<T>(stream@, 0) == Some((Seq::<T::V>::empty(), stream@)));
        assert(items.deep_view() + Seq::<T::V>::empty() =~= items.deep_view());
    }
    Ok(items)
}

/// However many values were asked of a successful parse came back.
pub proof fn lemma_items_io_parse_len<T: DeserializableInternalOrder>(data: Seq<u8>, count: nat)
    ensures
        items_io_parse::<T>(data, count) matches Some((items, _)) ==> items.len() == count,
    decreases count,
{
    if count > 0 {
        match T::io_parse(data) {
            Some((item, rest)) => {
                lemma_items_io_parse_len::<T>(rest, (count - 1) as nat);
            },
            None => {},
        }
    }
}

/// Reading back the concatenated bytes of well-formed values gives their
/// views, in order.
pub proof fn lemma_items_io_round_trip<T: DeserializableInternalOrder>(items: Seq<T>, rest: Seq<u8>)
    requires
        forall|i: int| 0 <= i < items.len() ==> (#[trigger] items[i]).io_wf(),
    ensures
        items_io_parse::<T>(
            super::serializable_internal_order::items_io_bytes(items) + rest,
            items.len() as nat,
        ) == Some((Seq::new(items.len(), |i: int| items[i].deep_view()), rest)),
    decreases items.len(),
{
    let views = Seq::new(items.len(), |i: int| items[i].deep_view());
    if items.len() == 0 {
        assert(super::serializable_internal_order::items_io_bytes(items) + rest =~= rest);
        assert(views =~= Seq::<T::V>::empty());
    } else {
        let head = items[0];
        let tail = items.drop_first();
        let head_bytes = head.io_bytes();
        let tail_bytes = super::serializable_internal_order::items_io_bytes(tail);
        assert(super::serializable_internal_order::items_io_bytes(items) + rest =~= head_bytes + (
        tail_bytes + rest));
        T::lemma_io_round_trip(head, tail_bytes + rest);
        lemma_items_io_round_trip::<T>(tail, rest);
        let tail_views = Seq::new(tail.len(), |i: int| tail[i].deep_view());
        assert(seq![head.deep_view()] + tail_views =~= views);
    }
}

/// Reads a fixed-size byte array off the front of `stream`; `None` when too
/// few bytes are left, with the stream unchanged.
pub fn read_array<const N: usize>(stream: &mut &[u8]) -> (r: Option<[u8; N]>)
    ensures
        r matches Some(v) ==> {
            &&& old(stream)@.len() >= N
            &&& v@ == old(stream)@.take(N as int)
            &&& final(stream)@ == old(stream)@.skip(N as int)
        },
        r is None ==> old(stream)@.len() < N && final(stream)@ == old(stream)@,
{
    if stream.len() < N {
        return None;
    }
    let mut out: [u8; N] = [0u8; N];
    let mut i: usize = 0;
    while i < N
        invariant
            i <= N,
            stream@.len() >= N,
            stream@ == old(stream)@,
            forall|j: int| 0 <= j < i ==> out@[j] == stream@[j],
        decreases N - i,
    {
        out[i] = stream[i];
        i = i + 1;
    }
    proof {
        assert(out@ =~= stream@.take(N as int));
    }
    let rest = vstd::slice::slice_subrange(*stream, N, stream.len());
    *stream = rest;
    Some(out)
}

impl<const N: usize> DeserializableInternalOrder for [u8; N] {
    open spec fn io_parse(data: Seq<u8>) -> Option<(Seq<u8>, Seq<u8>)> {
        if data.len() >= N {
            Some((data.take(N as int), data.skip(N as int)))
        } else {
            None
        }
    }

    fn io_deserialize(stream: &mut &[u8]) -> (r: Result<[u8; N], ErrorSerialization>) {
        match read_array::<N>(stream) {
            Some(v) => {
                proof {
                    assert(v.deep_view() =~= v@);
                }
                Ok(v)
            },
            None => Err(ErrorSerialization::ErrorWhileReading),
        }
    }

    proof fn lemma_io_round_trip(value: [u8; N], rest: Seq<u8>) {
        let data = value@ + rest;
        assert(data.take(N as int) =~= value@);
        assert(data.skip(N as int) =~= rest);
        assert(value.deep_view() =~= value@);
    }
}

} // verus!
