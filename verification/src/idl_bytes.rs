//! Little-endian integers of a given width: their bytes, the number that
//! bytes denote, and reading and writing them.
use vstd::prelude::*;

use vstd::arithmetic::div_mod::{lemma_div_denominator, lemma_mod_breakdown, lemma_small_mod};

verus! {

/// 256 to the power `n`: one more than the largest number `n` bytes hold.
pub open spec fn pow256(n: nat) -> nat
    decreases n,
{
    if n == 0 {
        1
    } else {
        256 * pow256((n - 1) as nat)
    }
}

/// The `size` low bytes of `x`, least significant first.
pub open spec fn le_bytes(x: nat, size: nat) -> Seq<u8> {
    Seq::new(size, |k: int| ((x / pow256(k as nat)) % 256) as u8)
}

/// The number that little-endian bytes denote.
pub open spec fn le_value(b: Seq<u8>) -> nat
    decreases b.len(),
{
    if b.len() == 0 {
        0
    } else {
        (b[0] as nat) + 256 * le_value(b.drop_first())
    }
}

pub proof fn lemma_pow256_positive(n: nat)
    ensures
        pow256(n) > 0,
    decreases n,
{
    if n > 0 {
        lemma_pow256_positive((n - 1) as nat);
    }
}

pub proof fn lemma_pow256_monotone(a: nat, b: nat)
    requires
        a <= b,
    ensures
        pow256(a) <= pow256(b),
    decreases b,
{
    lemma_pow256_positive(b);
    if a < b {
        lemma_pow256_monotone(a, (b - 1) as nat);
    }
}

/// The widths that the library reads and writes.
pub proof fn lemma_pow256_values()
    ensures
        pow256(1) == 0x100,
        pow256(2) == 0x1_0000,
        pow256(4) == 0x1_0000_0000,
        pow256(8) == 0x1_0000_0000_0000_0000,
        pow256(15) == 0x100_0000_0000_0000_0000_0000_0000_0000,
        pow256(16) == 0x1_0000_0000_0000_0000_0000_0000_0000_0000,
{
    reveal_with_fuel(pow256, 17);
}

/// Bytes denote a number below 256 to the power of their count.
pub proof fn lemma_le_value_bound(b: Seq<u8>)
    ensures
        le_value(b) < pow256(b.len()),
    decreases b.len(),
{
    if b.len() > 0 {
        lemma_le_value_bound(b.drop_first());
    }
}

/// The low bytes of `x` denote `x` modulo 256 to the power of their count.
pub proof fn lemma_le_value_of_bytes(x: nat, size: nat)
    ensures
        le_value(le_bytes(x, size)) == x % pow256(size),
    decreases size,
{
    lemma_pow256_positive(size);
    if size == 0 {
        assert(le_bytes(x, size) =~= Seq::<u8>::empty());
        assert(x % 1 == 0);
    } else {
        let b = le_bytes(x, size);
        assert(pow256(0) == 1);
        assert(x / 1 == x);
        assert(b[0] == ((x / pow256(0)) % 256) as u8);
        assert(b[0] == (x % 256) as u8);
        let rest = le_bytes(x / 256, (size - 1) as nat);
        assert forall|k: int| 0 <= k < rest.len() implies b.drop_first()[k] == rest[k] by {
            lemma_pow256_positive(k as nat);
            lemma_div_denominator(x as int, 256, pow256(k as nat) as int);
        }
        assert(b.drop_first() =~= rest);
        lemma_le_value_of_bytes(x / 256, (size - 1) as nat);
        lemma_pow256_positive((size - 1) as nat);
        lemma_mod_breakdown(x as int, 256, pow256((size - 1) as nat) as int);
    }
}

/// Writing a number that fits and reading it back gives the number.
pub proof fn lemma_le_roundtrip(x: nat, size: nat)
    requires
        x < pow256(size),
    ensures
        le_value(le_bytes(x, size)) == x,
        le_bytes(x, size).len() == size,
{
    lemma_le_value_of_bytes(x, size);
    lemma_small_mod(x, pow256(size));
}

/// Appends the `size` low bytes of `x`, least significant first.
pub fn push_le(out: &mut Vec<u8>, x: u128, size: usize)
    ensures
        final(out)@ == old(out)@ + le_bytes(x as nat, size as nat),
{
    let ghost start = out@;
    proof {
        assert(pow256(0) == 1);
        assert(le_bytes(x as nat, 0) =~= Seq::<u8>::empty());
    }
    let mut v: u128 = x;
    let mut i: usize = 0;
    while i < size
        invariant
            i <= size,
            v == x as nat / pow256(i as nat),
            out@ == start + le_bytes(x as nat, i as nat),
        decreases size - i,
    {
        let ghost prev = out@;
        out.push((v % 256) as u8);
        proof {
            lemma_pow256_positive(i as nat);
            lemma_div_denominator(x as int, pow256(i as nat) as int, 256);
            assert(le_bytes(x as nat, (i + 1) as nat) =~= le_bytes(x as nat, i as nat).push(
                ((x as nat / pow256(i as nat)) % 256) as u8,
            ));
            assert(out@ =~= start + le_bytes(x as nat, (i + 1) as nat));
        }
        v = v / 256;
        i = i + 1;
    }
}

/// Reads the number that the `size` bytes at `offset` denote, if they are
/// all there.
pub fn read_le(bytes: &[u8], offset: usize, size: usize) -> (r: Option<u128>)
    requires
        size <= 16,
    ensures
        match r {
            Some(x) => offset + size <= bytes@.len() && x == le_value(
                bytes@.subrange(offset as int, offset + size),
            ),
            None => offset + size > bytes@.len(),
        },
{
    if size > bytes.len() || offset > bytes.len() - size {
        return None;
    }
    let ghost end = offset + size;
    let mut acc: u128 = 0;
    let mut j: usize = size;
    proof {
        assert(bytes@.subrange(offset + j, end) =~= Seq::<u8>::empty());
    }
    while j > 0
        invariant
            j <= size <= 16,
            end == offset + size,
            end <= bytes@.len(),
            offset + size <= bytes.len(),
            acc == le_value(bytes@.subrange(offset + j, end)),
        decreases j,
    {
        proof {
            lemma_le_value_bound(bytes@.subrange(offset + j, end));
            lemma_pow256_monotone((size - j) as nat, 15);
            lemma_pow256_values();
            reveal_with_fuel(pow256, 16);
        }
        j = j - 1;
        proof {
            assert(bytes@.subrange(offset + j, end).drop_first() =~= bytes@.subrange(
                offset + j + 1,
                end,
            ));
        }
        acc = (bytes[offset + j] as u128) + 256 * acc;
    }
    Some(acc)
}

/// 256 to the power `w`, for the widths that fit.
pub fn pow256_exec(w: usize) -> (r: u128)
    requires
        w <= 15,
    ensures
        r == pow256(w as nat),
{
    let mut r: u128 = 1;
    let mut i: usize = 0;
    while i < w
        invariant
            i <= w <= 15,
            r == pow256(i as nat),
        decreases w - i,
    {
        proof {
            lemma_pow256_monotone(i as nat, 14);
            reveal_with_fuel(pow256, 15);
        }
        r = r * 256;
        i = i + 1;
    }
    r
}

/// Half of 256 to the power `w`: the first number that a signed integer of
/// `w` bytes cannot hold.
pub fn half_pow256_exec(w: usize) -> (r: u128)
    requires
        1 <= w <= 16,
    ensures
        r == pow256(w as nat) / 2,
        r * 2 == pow256(w as nat),
{
    let mut r: u128 = 128;
    let mut i: usize = 1;
    proof {
        reveal_with_fuel(pow256, 2);
    }
    while i < w
        invariant
            1 <= i <= w <= 16,
            r * 2 == pow256(i as nat),
        decreases w - i,
    {
        proof {
            lemma_pow256_monotone(i as nat, 15);
            lemma_pow256_values();
        }
        r = r * 256;
        i = i + 1;
    }
    r
}

} // verus!
