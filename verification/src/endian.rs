//! Unsigned integers as they lie in a byte buffer: the value of a run of
//! bytes under either byte order, the bytes of a value, and readers that
//! check nothing but compute exactly that value.

use vstd::prelude::*;

verus! {

/// 256 to the power `n`: the number of values that `n` bytes can hold.
pub open spec fn pow256(n: nat) -> nat
    decreases n,
{
    if n == 0 {
        1
    } else {
        256 * pow256((n - 1) as nat)
    }
}

/// The number that `bytes` spell when the first byte is the least significant.
pub open spec fn le_value(bytes: Seq<u8>) -> nat
    decreases bytes.len(),
{
    if bytes.len() == 0 {
        0
    } else {
        bytes[0] as nat + 256 * le_value(bytes.subrange(1, bytes.len() as int))
    }
}

/// The number that `bytes` spell when the first byte is the most significant.
pub open spec fn be_value(bytes: Seq<u8>) -> nat
    decreases bytes.len(),
{
    if bytes.len() == 0 {
        0
    } else {
        256 * be_value(bytes.drop_last()) + bytes.last() as nat
    }
}

/// The number that `bytes` spell under the byte order chosen by `big`.
pub open spec fn uint_value(bytes: Seq<u8>, big: bool) -> nat {
    if big {
        be_value(bytes)
    } else {
        le_value(bytes)
    }
}

/// The `width` bytes that spell `v`, least significant byte first.
pub open spec fn le_bytes(v: nat, width: nat) -> Seq<u8>
    decreases width,
{
    if width == 0 {
        Seq::empty()
    } else {
        seq![(v % 256) as u8] + le_bytes(v / 256, (width - 1) as nat)
    }
}

/// The `width` bytes that spell `v`, most significant byte first.
pub open spec fn be_bytes(v: nat, width: nat) -> Seq<u8>
    decreases width,
{
    if width == 0 {
        Seq::empty()
    } else {
        be_bytes(v / 256, (width - 1) as nat).push((v % 256) as u8)
    }
}

/// The `width` bytes that spell `v` under the byte order chosen by `big`.
pub open spec fn uint_bytes(v: nat, width: nat, big: bool) -> Seq<u8> {
    if big {
        be_bytes(v, width)
    } else {
        le_bytes(v, width)
    }
}

/// The powers of 256 that the fixed-width readers rely on.
pub proof fn lemma_pow256_values()
    ensures
        pow256(0) == 1,
        pow256(1) == 0x100,
        pow256(2) == 0x1_0000,
        pow256(3) == 0x100_0000,
        pow256(4) == 0x1_0000_0000,
        pow256(5) == 0x100_0000_0000,
        pow256(6) == 0x1_0000_0000_0000,
        pow256(7) == 0x100_0000_0000_0000,
        pow256(8) == 0x1_0000_0000_0000_0000,
{
    reveal_with_fuel(pow256, 9);
}

/// A little-endian value of `n` bytes is below 256 to the `n`.
pub proof fn lemma_le_value_bound(bytes: Seq<u8>)
    ensures
        le_value(bytes) < pow256(bytes.len()),
    decreases bytes.len(),
{
    if bytes.len() > 0 {
        lemma_le_value_bound(bytes.subrange(1, bytes.len() as int));
    }
}

/// A big-endian value of `n` bytes is below 256 to the `n`.
pub proof fn lemma_be_value_bound(bytes: Seq<u8>)
    ensures
        be_value(bytes) < pow256(bytes.len()),
    decreases bytes.len(),
{
    if bytes.len() > 0 {
        lemma_be_value_bound(bytes.drop_last());
    }
}

/// A value of `n` bytes is below 256 to the `n`, whatever the byte order.
pub proof fn lemma_uint_value_bound(bytes: Seq<u8>, big: bool)
    ensures
        uint_value(bytes, big) < pow256(bytes.len()),
{
    lemma_le_value_bound(bytes);
    lemma_be_value_bound(bytes);
}

/// Encoding yields exactly `width` bytes.
pub proof fn lemma_uint_bytes_len(v: nat, width: nat, big: bool)
    ensures
        uint_bytes(v, width, big).len() == width,
    decreases width,
{
    if width > 0 {
        lemma_uint_bytes_len(v / 256, (width - 1) as nat, big);
    }
}

/// Decoding what was encoded gives the value back, for every width and both
/// byte orders, as long as the value fits in `width` bytes.
pub proof fn lemma_encode_then_decode(v: nat, width: nat, big: bool)
    requires
        v < pow256(width),
    ensures
        uint_value(uint_bytes(v, width, big), big) == v,
    decreases width,
{
    if width > 0 {
        let rest = (width - 1) as nat;
        assert(v / 256 < pow256(rest)) by (nonlinear_arith)
            requires
                v < 256 * pow256(rest),
        ;
        lemma_encode_then_decode(v / 256, rest, big);
        lemma_uint_bytes_len(v / 256, rest, big);
        if big {
            let b = be_bytes(v, width);
            assert(b.drop_last() =~= be_bytes(v / 256, rest));
        } else {
            let b = le_bytes(v, width);
            assert(b.subrange(1, b.len() as int) =~= le_bytes(v / 256, rest));
        }
    }
}

/// Reads the `width` bytes of `data` that start at `at` as one unsigned
/// integer, most significant byte first if `big`, least significant first
/// otherwise.
pub fn read_uint(data: &[u8], at: usize, width: usize, big: bool) -> (v: u64)
    requires
        width <= 8,
        at + width <= data@.len(),
    ensures
        v == uint_value(data@.subrange(at as int, at + width), big),
{
    let ghost field = data@.subrange(at as int, at + width);
    let mut acc: u64 = 0;
    let mut i: usize = 0;
    proof {
        lemma_pow256_values();
    }
    if big {
        while i < width
            invariant
                i <= width <= 8,
                at + width <= data@.len() == data.len(),
                field == data@.subrange(at as int, at + width),
                acc == be_value(field.subrange(0, i as int)),
                acc < pow256(i as nat),
            decreases width - i,
        {
            let b = data[at + i];
            proof {
                let next = field.subrange(0, i + 1);
                assert(next.drop_last() =~= field.subrange(0, i as int));
                lemma_be_value_bound(next);
                lemma_pow256_bounded((i + 1) as nat);
            }
            acc = acc * 256 + b as u64;
            i = i + 1;
        }
        proof {
            assert(field.subrange(0, width as int) =~= field);
        }
    } else {
        while i < width
            invariant
                i <= width <= 8,
                at + width <= data@.len() == data.len(),
                field == data@.subrange(at as int, at + width),
                acc == le_value(field.subrange(width - i, width as int)),
                acc < pow256(i as nat),
            decreases width - i,
        {
            let b = data[at + (width - i - 1)];
            proof {
                let next = field.subrange(width - i - 1, width as int);
                assert(next.subrange(1, next.len() as int) =~= field.subrange(width - i, width as int));
                lemma_le_value_bound(next);
                lemma_pow256_bounded((i + 1) as nat);
            }
            acc = acc * 256 + b as u64;
            i = i + 1;
        }
        proof {
            assert(field.subrange(0, width as int) =~= field);
        }
    }
    acc
}

/// Up to eight bytes never spell more than a `u64` holds.
pub proof fn lemma_pow256_bounded(n: nat)
    requires
        n <= 8,
    ensures
        pow256(n) <= 0x1_0000_0000_0000_0000,
{
    reveal_with_fuel(pow256, 9);
}

/// Reads the two bytes at `at`, least significant first.
pub fn read_u16_le(data: &[u8], at: usize) -> (v: u16)
    requires
        at + 2 <= data@.len(),
    ensures
        v == le_value(data@.subrange(at as int, at + 2)),
{
    proof {
        lemma_le_value_bound(data@.subrange(at as int, at + 2));
        lemma_pow256_values();
    }
    read_uint(data, at, 2, false) as u16
}

/// Reads the four bytes at `at`, least significant first.
pub fn read_u32_le(data: &[u8], at: usize) -> (v: u32)
    requires
        at + 4 <= data@.len(),
    ensures
        v == le_value(data@.subrange(at as int, at + 4)),
{
    proof {
        lemma_le_value_bound(data@.subrange(at as int, at + 4));
        lemma_pow256_values();
    }
    read_uint(data, at, 4, false) as u32
}

/// Reads the eight bytes at `at`, least significant first.
pub fn read_u64_le(data: &[u8], at: usize) -> (v: u64)
    requires
        at + 8 <= data@.len(),
    ensures
        v == le_value(data@.subrange(at as int, at + 8)),
{
    read_uint(data, at, 8, false)
}

} // verus!
