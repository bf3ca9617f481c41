use vstd::prelude::*;

verus! {

/// 256 raised to `width`: the number of values a little-endian encoding of
/// `width` bytes can hold.
pub open spec fn pow256(width: nat) -> nat
    decreases width,
{
    if width == 0 {
        1
    } else {
        256 * pow256((width - 1) as nat)
    }
}

/// The little-endian encoding of `value` on exactly `width` bytes
/// (higher bytes of `value` are discarded).
pub open spec fn le_bytes_of(value: nat, width: nat) -> Seq<u8>
    decreases width,
{
    if width == 0 {
        Seq::empty()
    } else {
        seq![(value % 256) as u8] + le_bytes_of(value / 256, (width - 1) as nat)
    }
}

/// The number encoded little-endian by the whole of `data`.
pub open spec fn le_value_of(data: Seq<u8>) -> nat
    decreases data.len(),
{
    if data.len() == 0 {
        0
    } else {
        (data[0] as nat) + 256 * le_value_of(data.drop_first())
    }
}

/// A signed 32-bit value as the unsigned number its two's-complement bytes
/// hold.
pub open spec fn i32_as_unsigned(value: i32) -> nat {
    if value >= 0 {
        value as nat
    } else {
        (value + 0x1_0000_0000) as nat
    }
}

/// A signed 64-bit value as the unsigned number its two's-complement bytes
/// hold.
pub open spec fn i64_as_unsigned(value: i64) -> nat {
    if value >= 0 {
        value as nat
    } else {
        (value + 0x1_0000_0000_0000_0000) as nat
    }
}

/// The inverse of `i32_as_unsigned`.
pub open spec fn unsigned_as_i32(value: nat) -> i32 {
    if value < 0x8000_0000 {
        value as i32
    } else {
        (value - 0x1_0000_0000) as i32
    }
}

/// The inverse of `i64_as_unsigned`.
pub open spec fn unsigned_as_i64(value: nat) -> i64 {
    if value < 0x8000_0000_0000_0000 {
        value as i64
    } else {
        (value - 0x1_0000_0000_0000_0000) as i64
    }
}

pub proof fn lemma_le_bytes_of_len(value: nat, width: nat)
    ensures
        le_bytes_of(value, width).len() == width,
    decreases width,
{
    if width > 0 {
        lemma_le_bytes_of_len(value / 256, (width - 1) as nat);
    }
}

/// Appending one more byte to a little-endian encoding extends it with the
/// next higher byte of the value.
pub proof fn lemma_le_bytes_of_snoc(value: nat, width: nat)
    ensures
        le_bytes_of(value, width + 1) == le_bytes_of(value, width) + seq![
            (value / pow256(width) % 256) as u8,
        ],
    decreases width,
{
    lemma_le_bytes_of_len(value, width);
    if width == 0 {
        assert(le_bytes_of(value / 256, 0) =~= Seq::<u8>::empty());
        assert(pow256(0) == 1 && value / 1 == value);
        assert(le_bytes_of(value, 1) =~= le_bytes_of(value, 0) + seq![(value % 256) as u8]);
    } else {
        lemma_le_bytes_of_snoc(value / 256, (width - 1) as nat);
        assert(value / 256 / pow256((width - 1) as nat) == value / pow256(width)) by {
            lemma_pow256_pos((width - 1) as nat);
            vstd::arithmetic::div_mod::lemma_div_denominator(
                value as int,
                256,
                pow256((width - 1) as nat) as int,
            );
        }
        assert(le_bytes_of(value, width + 1) =~= le_bytes_of(value, width) + seq![
            (value / pow256(width) % 256) as u8,
        ]);
    }
}

pub proof fn lemma_pow256_values()
    ensures
        pow256(0) == 1,
        pow256(1) == 0x100,
        pow256(2) == 0x1_0000,
        pow256(3) == 0x100_0000,
        pow256(4) == 0x1_0000_0000,
        pow256(5) == 0x100_0000_0000,
        pow256(6) == 0x1_0000_0000_0000,
        pow256(7) == 0x100_0000_0000_0000,
        pow256(8) == 0x1_0000_0000_0000_0000,
{
    assert(pow256(0) == 1);
    assert(pow256(1) == 0x100);
    assert(pow256(2) == 0x1_0000);
    assert(pow256(3) == 0x100_0000);
    assert(pow256(4) == 0x1_0000_0000);
    assert(pow256(5) == 0x100_0000_0000);
    assert(pow256(6) == 0x1_0000_0000_0000);
    assert(pow256(7) == 0x100_0000_0000_0000);
}

/// Larger widths give at least as large powers.
pub proof fn lemma_pow256_mono(small: nat, large: nat)
    requires
        small <= large,
    ensures
        pow256(small) <= pow256(large),
    decreases large,
{
    if small < large {
        lemma_pow256_mono(small, (large - 1) as nat);
        lemma_pow256_pos((large - 1) as nat);
    }
}

pub proof fn lemma_pow256_pos(width: nat)
    ensures
        pow256(width) >= 1,
    decreases width,
{
    if width > 0 {
        lemma_pow256_pos((width - 1) as nat);
    }
}

/// Decoding the encoding of `value` gives `value` back, as long as `value`
/// fits in `width` bytes.
pub proof fn lemma_le_value_of_le_bytes_of(value: nat, width: nat)
    requires
        value < pow256(width),
    ensures
        le_value_of(le_bytes_of(value, width)) == value,
    decreases width,
{
    if width == 0 {
    } else {
        assert(value / 256 < pow256((width - 1) as nat)) by {
            lemma_pow256_pos((width - 1) as nat);
        }
        lemma_le_value_of_le_bytes_of(value / 256, (width - 1) as nat);
        let bytes = le_bytes_of(value, width);
        assert(bytes.drop_first() =~= le_bytes_of(value / 256, (width - 1) as nat));
    }
}

/// Encoding the number that `data` holds, on as many bytes, gives `data` back.
pub proof fn lemma_le_bytes_of_le_value_of(data: Seq<u8>)
    ensures
        le_bytes_of(le_value_of(data), data.len()) == data,
    decreases data.len(),
{
    if data.len() > 0 {
        lemma_le_bytes_of_le_value_of(data.drop_first());
        let value = le_value_of(data);
        assert(value % 256 == data[0] && value / 256 == le_value_of(data.drop_first())) by {
            vstd::arithmetic::div_mod::lemma_fundamental_div_mod_converse(
                value as int,
                256,
                le_value_of(data.drop_first()) as int,
                data[0] as int,
            );
        }
        assert(le_bytes_of(value, data.len()) =~= data);
    }
}

/// A little-endian number splits at any position into its low bytes plus
/// its high bytes scaled.
pub proof fn lemma_le_value_of_split(data: Seq<u8>, k: int)
    requires
        0 <= k <= data.len(),
    ensures
        le_value_of(data) == le_value_of(data.take(k)) + pow256(k as nat) * le_value_of(
            data.skip(k),
        ),
    decreases k,
{
    if k == 0 {
        assert(data.take(0) =~= Seq::<u8>::empty());
        assert(data.skip(0) =~= data);
        assert(pow256(0) == 1);
        assert(1 * le_value_of(data) == le_value_of(data)) by {
            vstd::arithmetic::mul::lemma_mul_basics(le_value_of(data) as int);
        }
    } else {
        assert(data.len() > 0);
        lemma_le_value_of_split(data.drop_first(), k - 1);
        assert(data.take(k).drop_first() =~= data.drop_first().take(k - 1));
        assert(data.skip(k) =~= data.drop_first().skip(k - 1));
        let lo = le_value_of(data.drop_first().take(k - 1));
        let hi = le_value_of(data.skip(k));
        assert(le_value_of(data.take(k)) == data[0] + 256 * lo);
        assert(le_value_of(data) == data[0] + 256 * (lo + pow256((k - 1) as nat) * hi));
        assert(256 * (lo + pow256((k - 1) as nat) * hi) == 256 * lo + 256 * (pow256(
            (k - 1) as nat,
        ) * hi)) by {
            vstd::arithmetic::mul::lemma_mul_is_distributive_add(
                256,
                lo as int,
                (pow256((k - 1) as nat) * hi) as int,
            );
        }
        assert(256 * (pow256((k - 1) as nat) * hi) == pow256(k as nat) * hi) by {
            vstd::arithmetic::mul::lemma_mul_is_associative(
                256,
                pow256((k - 1) as nat) as int,
                hi as int,
            );
        }
        assert(le_value_of(data) == le_value_of(data.take(k)) + pow256(k as nat) * le_value_of(
            data.skip(k),
        ));
    }
}

/// A little-endian number is zero exactly when every byte is zero.
pub proof fn lemma_le_value_of_zero(data: Seq<u8>)
    ensures
        (le_value_of(data) == 0) <==> (forall|i: int| 0 <= i < data.len() ==> data[i] == 0),
    decreases data.len(),
{
    if data.len() > 0 {
        lemma_le_value_of_zero(data.drop_first());
        if le_value_of(data) == 0 {
            assert(data[0] == 0);
            assert forall|i: int| 0 <= i < data.len() implies data[i] == 0 by {
                if i > 0 {
                    assert(data.drop_first()[i - 1] == data[i]);
                }
            }
        }
        if forall|i: int| 0 <= i < data.len() ==> data[i] == 0 {
            assert forall|i: int|
                0 <= i < data.drop_first().len() implies #[trigger] data.drop_first()[i]
                == 0 by {
                assert(data.drop_first()[i] == data[i + 1]);
            }
            assert(le_value_of(data.drop_first()) == 0);
            assert(le_value_of(data) == data[0]);
        }
    }
}

/// The number a `width`-byte encoding holds is below `pow256(width)`.
pub proof fn lemma_le_value_of_bound(data: Seq<u8>)
    ensures
        le_value_of(data) < pow256(data.len()),
    decreases data.len(),
{
    if data.len() > 0 {
        lemma_le_value_of_bound(data.drop_first());
    }
}

} // verus!
