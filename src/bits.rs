//! Bit-level operations on 64-bit and 32-bit blocks. Bit 0 of a block is its
//! most significant bit.
use vstd::prelude::*;
use crate::tables::{Shift, shift_amount};

verus! {

/// Bit `i` of a 64-bit block, counted from the most significant end.
pub open spec fn bit64(x: u64, i: u32) -> bool {
    (x & (0x8000_0000_0000_0000u64 >> i)) != 0
}

/// Bit `i` of a 32-bit block, counted from the most significant end.
pub open spec fn bit32(x: u32, i: u32) -> bool {
    (x & (0x8000_0000u32 >> i)) != 0
}

/// The 64-bit block whose bit `b` is bit `t[b]` of `x`, for each position
/// `b` of `t`; the bits past the end of `t` are zero.
pub open spec fn permuted64(x: u64, t: Seq<u32>) -> u64
    decreases t.len(),
{
    if t.len() == 0 {
        0
    } else {
        let r = permuted64(x, t.drop_last());
        if bit64(x, t.last()) {
            r | (0x8000_0000_0000_0000u64 >> ((t.len() - 1) as u32))
        } else {
            r
        }
    }
}

/// The 32-bit block whose bit `b` is bit `t[b]` of `x`, for each position
/// `b` of `t`; the bits past the end of `t` are zero.
pub open spec fn permuted32(x: u32, t: Seq<u32>) -> u32
    decreases t.len(),
{
    if t.len() == 0 {
        0
    } else {
        let r = permuted32(x, t.drop_last());
        if bit32(x, t.last()) {
            r | (0x8000_0000u32 >> ((t.len() - 1) as u32))
        } else {
            r
        }
    }
}

/// The high and the low half of a 64-bit block.
pub open spec fn halves64(x: u64) -> (u32, u32) {
    ((x >> 32u64) as u32, x as u32)
}

/// The 64-bit block with `l` as its high half and `r` as its low half.
pub open spec fn joined32s(l: u32, r: u32) -> u64 {
    ((l as u64) << 32u64) | (r as u64)
}

/// Bits 0..28 and bits 28..56 of `x`, each left-justified in 32 bits.
pub open spec fn halves56(x: u64) -> (u32, u32) {
    (((x & 0xFFFF_FFF0_0000_0000u64) >> 32u64) as u32, ((x & 0xF_FFFF_FF00u64) >> 4u64) as u32)
}

/// The 56-bit value, left-justified in 64 bits, made of the 28-bit halves
/// `c` and `d`.
pub open spec fn joined28s(c: u32, d: u32) -> u64 {
    ((c as u64) << 32u64) | ((d as u64) << 4u64)
}

/// Rotation left of the 28-bit field held in the top of `x`.
pub open spec fn rotated28(x: u32, s: Shift) -> u32 {
    match s {
        Shift::One => (x << 1u32) | ((x & 0x8000_0000u32) >> 27u32),
        Shift::Two => (x << 2u32) | ((x & 0xC000_0000u32) >> 26u32),
    }
}

pub fn test_bit64(block: u64, i: u32) -> (r: bool)
    requires
        i < 64,
    ensures
        r == bit64(block, i),
{
    (block & (0x8000_0000_0000_0000u64 >> i)) != 0
}

pub fn set_bit64(block: u64, i: u32) -> (r: u64)
    requires
        i < 64,
    ensures
        r == block | (0x8000_0000_0000_0000u64 >> i),
        forall|j: u32| j < 64 ==> bit64(r, j) == (j == i || bit64(block, j)),
{
    proof {
        lemma_set_bit64(block, i);
    }
    block | (0x8000_0000_0000_0000u64 >> i)
}

pub fn test_bit32(block: u32, bit: u32) -> (r: bool)
    requires
        bit < 32,
    ensures
        r == bit32(block, bit),
{
    (block & (0x8000_0000u32 >> bit)) != 0
}

pub fn set_bit32(block: u32, bit: u32) -> (r: u32)
    requires
        bit < 32,
    ensures
        r == block | (0x8000_0000u32 >> bit),
        forall|j: u32| j < 32 ==> bit32(r, j) == (j == bit || bit32(block, j)),
{
    proof {
        lemma_set_bit32(block, bit);
    }
    block | (0x8000_0000u32 >> bit)
}

pub fn split64(block: u64) -> (r: (u32, u32))
    ensures
        r == halves64(block),
        joined32s(r.0, r.1) == block,
{
    proof {
        lemma_join_split64(block);
    }
    let l: u64 = 0xFFFF_FFFF_0000_0000u64 & block;
    let r: u64 = 0x0000_0000_FFFF_FFFFu64 & block;
    proof {
        assert((l >> 32u64) as u32 == (block >> 32u64) as u32) by (bit_vector)
            requires
                l == 0xFFFF_FFFF_0000_0000u64 & block,
        ;
        assert(r as u32 == block as u32) by (bit_vector)
            requires
                r == 0x0000_0000_FFFF_FFFFu64 & block,
        ;
    }
    ((l >> 32) as u32, r as u32)
}

pub fn join32s(left: u32, right: u32) -> (r: u64)
    ensures
        r == joined32s(left, right),
        halves64(r) == (left, right),
{
    proof {
        lemma_split_join64(left, right);
    }
    ((left as u64) << 32) | (right as u64)
}

pub fn split56(block: u64) -> (r: (u32, u32))
    ensures
        r == halves56(block),
        r.0 & 0xF == 0,
        r.1 & 0xF == 0,
        block & 0xFF == 0 ==> joined28s(r.0, r.1) == block,
{
    proof {
        lemma_join_split56(block);
    }
    let c: u64 = block & 0xFFFF_FFF0_0000_0000u64;
    let d: u64 = block & 0xF_FFFF_FF00u64;
    ((c >> 32) as u32, (d >> 4) as u32)
}

pub fn join28s(c: u32, d: u32) -> (r: u64)
    ensures
        r == joined28s(c, d),
        c & 0xF == 0 && d & 0xF == 0 ==> halves56(r) == (c, d),
        c & 0xF == 0 && d & 0xF == 0 ==> r & 0xFF == 0,
{
    proof {
        lemma_split_join56(c, d);
    }
    ((c as u64) << 32) | ((d as u64) << 4)
}

pub fn rotate28(block: u32, shifts: Shift) -> (r: u32)
    ensures
        r == rotated28(block, shifts),
        block & 0xF == 0 ==> r & 0xF == 0,
        block & 0xF == 0 ==> forall|i: u32|
            i < 28 ==> bit32(r, i) == bit32(block, ((i + shift_amount(shifts)) % 28) as u32),
{
    proof {
        lemma_rotate28(block);
    }
    let first_bits = match shifts {
        Shift::One => (block & 0x8000_0000u32) >> 27,
        Shift::Two => (block & 0xC000_0000u32) >> 26,
    };
    (block << shifts.amount()) | first_bits
}

pub fn permute64(block: u64, table: &[u32]) -> (r: u64)
    requires
        table@.len() <= 64,
        forall|i: int| 0 <= i < table@.len() ==> table@[i] < 64,
    ensures
        r == permuted64(block, table@),
        forall|b: u32| b < 64 ==> bit64(r, b) == (b < table@.len() && bit64(block, table@[b as int])),
{
    let mut result: u64 = 0;
    let mut bit: usize = 0;
    while bit < table.len()
        invariant
            bit <= table@.len(),
            table@.len() <= 64,
            forall|i: int| 0 <= i < table@.len() ==> table@[i] < 64,
            result == permuted64(block, table@.subrange(0, bit as int)),
        decreases table@.len() - bit,
    {
        let index = table[bit];
        assert(table@.subrange(0, bit as int + 1).drop_last() =~= table@.subrange(0, bit as int));
        if test_bit64(block, index) {
            result = set_bit64(result, bit as u32);
        }
        bit = bit + 1;
    }
    assert(table@.subrange(0, bit as int) =~= table@);
    proof {
        lemma_permuted64_bits(block, table@);
    }
    result
}

pub fn permute32(block: u32, table: &[u32]) -> (r: u32)
    requires
        table@.len() <= 32,
        forall|i: int| 0 <= i < table@.len() ==> table@[i] < 32,
    ensures
        r == permuted32(block, table@),
{
    let mut result: u32 = 0;
    let mut bit: usize = 0;
    while bit < table.len()
        invariant
            bit <= table@.len(),
            table@.len() <= 32,
            forall|i: int| 0 <= i < table@.len() ==> table@[i] < 32,
            result == permuted32(block, table@.subrange(0, bit as int)),
        decreases table@.len() - bit,
    {
        let index = table[bit];
        assert(table@.subrange(0, bit as int + 1).drop_last() =~= table@.subrange(0, bit as int));
        if test_bit32(block, index) {
            result = set_bit32(result, bit as u32);
        }
        bit = bit + 1;
    }
    assert(table@.subrange(0, bit as int) =~= table@);
    result
}

proof fn lemma_set_bit64(x: u64, i: u32)
    by (bit_vector)
    requires
        i < 64,
    ensures
        forall|j: u32| j < 64 ==> #[trigger] bit64(x | (0x8000_0000_0000_0000u64 >> i), j) == (j == i || bit64(x, j)),
{
}

proof fn lemma_set_bit32(x: u32, i: u32)
    by (bit_vector)
    requires
        i < 32,
    ensures
        forall|j: u32| j < 32 ==> #[trigger] bit32(x | (0x8000_0000u32 >> i), j) == (j == i || bit32(x, j)),
{
}

/// Joining the two halves of a 64-bit block gives the block back.
pub proof fn lemma_join_split64(x: u64)
    by (bit_vector)
    ensures
        (((x >> 32u64) as u32 as u64) << 32u64) | (x as u32 as u64) == x,
{
}

/// Splitting two joined 32-bit halves gives the halves back.
pub proof fn lemma_split_join64(l: u32, r: u32)
    by (bit_vector)
    ensures
        (((((l as u64) << 32u64) | (r as u64)) >> 32u64) as u32) == l,
        ((((l as u64) << 32u64) | (r as u64)) as u32) == r,
{
}

proof fn lemma_join_split56(x: u64)
    by (bit_vector)
    ensures
        ((x & 0xFFFF_FFF0_0000_0000u64) >> 32u64) as u32 & 0xF == 0,
        ((x & 0xF_FFFF_FF00u64) >> 4u64) as u32 & 0xF == 0,
        x & 0xFF == 0 ==> ((((x & 0xFFFF_FFF0_0000_0000u64) >> 32u64) as u32 as u64) << 32u64)
            | ((((x & 0xF_FFFF_FF00u64) >> 4u64) as u32 as u64) << 4u64) == x,
{
}

proof fn lemma_split_join56(c: u32, d: u32)
    by (bit_vector)
    ensures
        (c & 0xF == 0 && d & 0xF == 0) ==> (((((c as u64) << 32u64) | ((d as u64) << 4u64))
            & 0xFFFF_FFF0_0000_0000u64) >> 32u64) as u32 == c,
        (c & 0xF == 0 && d & 0xF == 0) ==> (((((c as u64) << 32u64) | ((d as u64) << 4u64))
            & 0xF_FFFF_FF00u64) >> 4u64) as u32 == d,
        (c & 0xF == 0 && d & 0xF == 0) ==> (((c as u64) << 32u64) | ((d as u64) << 4u64)) & 0xFF == 0,
{
}

proof fn lemma_rotate28(x: u32)
    by (bit_vector)
    ensures
        x & 0xF == 0 ==> ((x << 1u32) | ((x & 0x8000_0000u32) >> 27u32)) & 0xF == 0,
        x & 0xF == 0 ==> ((x << 2u32) | ((x & 0xC000_0000u32) >> 26u32)) & 0xF == 0,
        x & 0xF == 0 ==> forall|i: u32| i < 28 ==>
            bit32((x << 1u32) | ((x & 0x8000_0000u32) >> 27u32), i) == bit32(x, ((i + 1) % 28) as u32),
        x & 0xF == 0 ==> forall|i: u32| i < 28 ==>
            bit32((x << 2u32) | ((x & 0xC000_0000u32) >> 26u32), i) == bit32(x, ((i + 2) % 28) as u32),
{
}

/// What `permuted64` holds, bit by bit.
pub proof fn lemma_permuted64_bits(x: u64, t: Seq<u32>)
    requires
        t.len() <= 64,
        forall|i: int| 0 <= i < t.len() ==> t[i] < 64,
    ensures
        forall|b: u32| b < 64 ==> bit64(permuted64(x, t), b) == (b < t.len() && bit64(x, t[b as int])),
    decreases t.len(),
{
    if t.len() == 0 {
        assert(forall|b: u32| b < 64 ==> !#[trigger] bit64(0, b)) by (bit_vector);
    } else {
        let s = t.drop_last();
        let n = (t.len() - 1) as u32;
        lemma_permuted64_bits(x, s);
        lemma_set_bit64(permuted64(x, s), n);
        assert forall|b: u32| b < 64 implies #[trigger] bit64(permuted64(x, t), b) == (b < t.len()
            && bit64(x, t[b as int])) by {
            if b < n {
                assert(t[b as int] == s[b as int]);
            }
        }
    }
}

/// Two 64-bit blocks that agree on every bit are equal.
pub proof fn lemma_bits64_eq(x: u64, y: u64)
    requires
        forall|b: u32| b < 64 ==> bit64(x, b) == bit64(y, b),
    ensures
        x == y,
{
    lemma_bits64_prefix(x, y, 63);
    assert(x >> 0u64 == x && y >> 0u64 == y) by (bit_vector);
}

/// Blocks that agree on bits `0..=n` agree once shifted right by `63 - n`.
proof fn lemma_bits64_prefix(x: u64, y: u64, n: u32)
    requires
        n < 64,
        forall|b: u32| b <= n ==> bit64(x, b) == bit64(y, b),
    ensures
        x >> ((63 - n) as u64) == y >> ((63 - n) as u64),
    decreases n,
{
    if n == 0 {
        assert(bit64(x, 0) == bit64(y, 0));
        assert(bit64(x, 0) == bit64(y, 0) ==> x >> 63u64 == y >> 63u64) by (bit_vector);
    } else {
        lemma_bits64_prefix(x, y, (n - 1) as u32);
        assert(bit64(x, n) == bit64(y, n));
        lemma_bits64_step(x, y, n);
    }
}

proof fn lemma_bits64_step(x: u64, y: u64, n: u32)
    by (bit_vector)
    requires
        0 < n < 64,
        x >> ((64 - n) as u64) == y >> ((64 - n) as u64),
        bit64(x, n) == bit64(y, n),
    ensures
        x >> ((63 - n) as u64) == y >> ((63 - n) as u64),
{
}

} // verus!
