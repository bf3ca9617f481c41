use vstd::prelude::*;

use super::encoding::{
    le_bytes_of, le_value_of, lemma_le_bytes_of_snoc, lemma_le_value_of_bound, lemma_pow256_mono,
    lemma_pow256_pos, lemma_pow256_values, pow256,
};

verus! {

/// Appends the `width` lowest bytes of `value`, little-endian, to `stream`.
pub fn write_le_bytes(stream: &mut Vec<u8>, value: u64, width: usize)
    requires
        width <= 8,
    ensures
        final(stream)@ == old(stream)@ + le_bytes_of(value as nat, width as nat),
{
    let mut i: usize = 0;
    let mut v: u64 = value;
    proof {
        assert(le_bytes_of(value as nat, 0) =~= Seq::<u8>::empty());
        assert(stream@ =~= stream@ + le_bytes_of(value as nat, 0));
        assert(pow256(0) == 1);
    }
    while i < width
        invariant
            i <= width <= 8,
            v as nat == (value as nat) / pow256(i as nat),
            stream@ == old(stream)@ + le_bytes_of(value as nat, i as nat),
        decreases width - i,
    {
        proof {
            lemma_le_bytes_of_snoc(value as nat, i as nat);
            lemma_pow256_pos(i as nat);
            vstd::arithmetic::div_mod::lemma_div_denominator(
                value as int,
                pow256(i as nat) as int,
                256,
            );
        }
        stream.push((v % 256) as u8);
        v = v / 256;
        i = i + 1;
    }
}

/// Reads `width` little-endian bytes from the front of `stream` as a number,
/// advancing the stream; `None` when fewer than `width` bytes are left, with
/// the stream unchanged.
pub fn read_le_bytes(stream: &mut &[u8], width: usize) -> (r: Option<u64>)
    requires
        width <= 8,
    ensures
        r matches Some(v) ==> {
            &&& old(stream)@.len() >= width
            &&& v as nat == le_value_of(old(stream)@.take(width as int))
            &&& final(stream)@ == old(stream)@.skip(width as int)
        },
        r is None ==> old(stream)@.len() < width && final(stream)@ == old(stream)@,
{
    if stream.len() < width {
        return None;
    }
    let mut i: usize = width;
    let mut v: u64 = 0;
    proof {
        assert(old(stream)@.take(width as int).subrange(i as int, width as int)
            =~= Seq::<u8>::empty());
    }
    while i > 0
        invariant
            i <= width <= 8,
            stream@.len() >= width,
            stream@ == old(stream)@,
            v as nat == le_value_of(stream@.take(width as int).subrange(i as int, width as int)),
            (v as nat) < pow256((width - i) as nat),
        decreases i,
    {
        let b = stream[i - 1];
        proof {
            let taken = stream@.take(width as int);
            let tail = taken.subrange(i as int - 1, width as int);
            assert(tail.drop_first() =~= taken.subrange(i as int, width as int));
            assert(tail[0] == b);
            lemma_le_value_of_bound(tail);
            lemma_pow256_pos((width - i) as nat);
            assert(pow256((width - i + 1) as nat) == 256 * pow256((width - i) as nat));
            lemma_pow256_values();
            lemma_pow256_mono((width - i + 1) as nat, 8);
        }
        v = v * 256 + (b as u64);
        i = i - 1;
    }
    proof {
        assert(stream@.take(width as int).subrange(0, width as int)
            =~= stream@.take(width as int));
    }
    let rest = vstd::slice::slice_subrange(*stream, width, stream.len());
    *stream = rest;
    Some(v)
}

/// A copy of a byte vector with the same bytes.
pub fn clone_bytes(bytes: &Vec<u8>) -> (r: Vec<u8>)
    ensures
        r@ == bytes@,
{
    let r = bytes.clone();
    proof {
        assert(r@ =~= bytes@);
    }
    r
}

/// Whether two byte sequences hold the same bytes.
pub fn bytes_equal(left: &[u8], right: &[u8]) -> (r: bool)
    ensures
        r == (left@ == right@),
{
    if left.len() != right.len() {
        return false;
    }
    let mut i: usize = 0;
    while i < left.len()
        invariant
            i <= left@.len(),
            left@.len() == right@.len(),
            forall|j: int| 0 <= j < i ==> left@[j] == right@[j],
        decreases left@.len() - i,
    {
        if left[i] != right[i] {
            return false;
        }
        i = i + 1;
    }
    proof {
        assert(left@ =~= right@);
    }
    true
}

/// Reads `count` bytes from the front of `stream`, advancing it; `None` when
/// fewer are left, with the stream unchanged.
pub fn read_bytes(stream: &mut &[u8], count: usize) -> (r: Option<Vec<u8>>)
    ensures
        r matches Some(v) ==> {
            &&& old(stream)@.len() >= count
            &&& v@ == old(stream)@.take(count as int)
            &&& final(stream)@ == old(stream)@.skip(count as int)
        },
        r is None ==> old(stream)@.len() < count && final(stream)@ == old(stream)@,
{
    if stream.len() < count {
        return None;
    }
    let mut out: Vec<u8> = Vec::new();
    let mut i: usize = 0;
    while i < count
        invariant
            i <= count <= stream@.len(),
            stream@ == old(stream)@,
            out@ == stream@.take(i as int),
        decreases count - i,
    {
        out.push(stream[i]);
        proof {
            assert(out@ =~= stream@.take(i + 1));
        }
        i = i + 1;
    }
    let rest = vstd::slice::slice_subrange(*stream, count, stream.len());
    *stream = rest;
    Some(out)
}

} // verus!
