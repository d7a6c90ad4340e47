//! The constant tables of DES. Every permutation table lists, for each output
//! bit, the index of the input bit it copies; bit 0 is the most significant.
use vstd::prelude::*;

verus! {

/// Rotation amount of one round of the key schedule.
#[derive(Clone, Copy, Debug, PartialEq, Eq)]
pub enum Shift {
    One,
    Two,
}

/// The number of bit positions that `s` stands for.
pub open spec fn shift_amount(s: Shift) -> u32 {
    match s {
        Shift::One => 1,
        Shift::Two => 2,
    }
}

impl Shift {
    pub fn amount(self) -> (r: u32)
        ensures
            r == shift_amount(self),
    {
        match self {
            Shift::One => 1,
            Shift::Two => 2,
        }
    }
}

/// Initial permutation.
pub const IP: [u32; 64] = [
    57, 49, 41, 33, 25, 17, 9, 1, 59, 51, 43, 35, 27, 19, 11, 3,
    61, 53, 45, 37, 29, 21, 13, 5, 63, 55, 47, 39, 31, 23, 15, 7,
    56, 48, 40, 32, 24, 16, 8, 0, 58, 50, 42, 34, 26, 18, 10, 2,
    60, 52, 44, 36, 28, 20, 12, 4, 62, 54, 46, 38, 30, 22, 14, 6,
];

/// Inverse of the initial permutation.
pub const IP_INV: [u32; 64] = [
    39, 7, 47, 15, 55, 23, 63, 31, 38, 6, 46, 14, 54, 22, 62, 30,
    37, 5, 45, 13, 53, 21, 61, 29, 36, 4, 44, 12, 52, 20, 60, 28,
    35, 3, 43, 11, 51, 19, 59, 27, 34, 2, 42, 10, 50, 18, 58, 26,
    33, 1, 41, 9, 49, 17, 57, 25, 32, 0, 40, 8, 48, 16, 56, 24,
];

/// Permuted choice 1: drops the parity bits of the key, 64 bits to 56.
pub const PC1: [u32; 56] = [
    56, 48, 40, 32, 24, 16, 8, 0, 57, 49, 41, 33, 25, 17,
    9, 1, 58, 50, 42, 34, 26, 18, 10, 2, 59, 51, 43, 35,
    62, 54, 46, 38, 30, 22, 14, 6, 61, 53, 45, 37, 29, 21,
    13, 5, 60, 52, 44, 36, 28, 20, 12, 4, 27, 19, 11, 3,
];

/// Permuted choice 2: compresses the joined key halves, 56 bits to 48.
pub const PC2: [u32; 48] = [
    13, 16, 10, 23, 0, 4, 2, 27, 14, 5, 20, 9,
    22, 18, 11, 3, 25, 7, 15, 6, 26, 19, 12, 1,
    40, 51, 30, 36, 46, 54, 29, 39, 50, 44, 32, 47,
    43, 48, 38, 55, 33, 52, 45, 41, 49, 35, 28, 31,
];

/// Expansion of a half-block, 32 bits to 48.
pub const E: [u32; 48] = [
    31, 0, 1, 2, 3, 4, 3, 4, 5, 6, 7, 8,
    7, 8, 9, 10, 11, 12, 11, 12, 13, 14, 15, 16,
    15, 16, 17, 18, 19, 20, 19, 20, 21, 22, 23, 24,
    23, 24, 25, 26, 27, 28, 27, 28, 29, 30, 31, 0,
];

/// Permutation of the substitution output.
pub const P: [u32; 32] = [
    15, 6, 19, 20, 28, 11, 27, 16, 0, 14, 22, 25, 4, 17, 30, 9,
    1, 7, 23, 13, 31, 26, 2, 8, 18, 12, 29, 5, 21, 10, 3, 24,
];

/// The eight substitution boxes, each indexed by row and column.
pub const SBOX: [[[u8; 16]; 4]; 8] = [
    [
        [14, 4, 13, 1, 2, 15, 11, 8, 3, 10, 6, 12, 5, 9, 0, 7],
        [0, 15, 7, 4, 14, 2, 13, 1, 10, 6, 12, 11, 9, 5, 3, 8],
        [4, 1, 14, 8, 13, 6, 2, 11, 15, 12, 9, 7, 3, 10, 5, 0],
        [15, 12, 8, 2, 4, 9, 1, 7, 5, 11, 3, 14, 10, 0, 6, 13],
    ],
    [
        [15, 1, 8, 14, 6, 11, 3, 4, 9, 7, 2, 13, 12, 0, 5, 10],
        [3, 13, 4, 7, 15, 2, 8, 14, 12, 0, 1, 10, 6, 9, 11, 5],
        [0, 14, 7, 11, 10, 4, 13, 1, 5, 8, 12, 6, 9, 3, 2, 15],
        [13, 8, 10, 1, 3, 15, 4, 2, 11, 6, 7, 12, 0, 5, 14, 9],
    ],
    [
        [10, 0, 9, 14, 6, 3, 15, 5, 1, 13, 12, 7, 11, 4, 2, 8],
        [13, 7, 0, 9, 3, 4, 6, 10, 2, 8, 5, 14, 12, 11, 15, 1],
        [13, 6, 4, 9, 8, 15, 3, 0, 11, 1, 2, 12, 5, 10, 14, 7],
        [1, 10, 13, 0, 6, 9, 8, 7, 4, 15, 14, 3, 11, 5, 2, 12],
    ],
    [
        [7, 13, 14, 3, 0, 6, 9, 10, 1, 2, 8, 5, 11, 12, 4, 15],
        [13, 8, 11, 5, 6, 15, 0, 3, 4, 7, 2, 12, 1, 10, 14, 9],
        [10, 6, 9, 0, 12, 11, 7, 13, 15, 1, 3, 14, 5, 2, 8, 4],
        [3, 15, 0, 6, 10, 1, 13, 8, 9, 4, 5, 11, 12, 7, 2, 14],
    ],
    [
        [2, 12, 4, 1, 7, 10, 11, 6, 8, 5, 3, 15, 13, 0, 14, 9],
        [14, 11, 2, 12, 4, 7, 13, 1, 5, 0, 15, 10, 3, 9, 8, 6],
        [4, 2, 1, 11, 10, 13, 7, 8, 15, 9, 12, 5, 6, 3, 0, 14],
        [11, 8, 12, 7, 1, 14, 2, 13, 6, 15, 0, 9, 10, 4, 5, 3],
    ],
    [
        [12, 1, 10, 15, 9, 2, 6, 8, 0, 13, 3, 4, 14, 7, 5, 11],
        [10, 15, 4, 2, 7, 12, 9, 5, 6, 1, 13, 14, 0, 11, 3, 8],
        [9, 14, 15, 5, 2, 8, 12, 3, 7, 0, 4, 10, 1, 13, 11, 6],
        [4, 3, 2, 12, 9, 5, 15, 10, 11, 14, 1, 7, 6, 0, 8, 13],
    ],
    [
        [4, 11, 2, 14, 15, 0, 8, 13, 3, 12, 9, 7, 5, 10, 6, 1],
        [13, 0, 11, 7, 4, 9, 1, 10, 14, 3, 5, 12, 2, 15, 8, 6],
        [1, 4, 11, 13, 12, 3, 7, 14, 10, 15, 6, 8, 0, 5, 9, 2],
        [6, 11, 13, 8, 1, 4, 10, 7, 9, 5, 0, 15, 14, 2, 3, 12],
    ],
    [
        [13, 2, 8, 4, 6, 15, 11, 1, 10, 9, 3, 14, 5, 0, 12, 7],
        [1, 15, 13, 8, 10, 3, 7, 4, 12, 5, 6, 11, 0, 14, 9, 2],
        [7, 11, 4, 1, 9, 12, 14, 2, 0, 6, 10, 13, 15, 3, 5, 8],
        [2, 1, 14, 7, 4, 10, 8, 13, 15, 12, 9, 0, 3, 5, 6, 11],
    ],
];

/// Per-round rotation of the key halves.
pub const SHIFTS: [Shift; 16] = [
    Shift::One, Shift::One, Shift::Two, Shift::Two,
    Shift::Two, Shift::Two, Shift::Two, Shift::Two,
    Shift::One, Shift::Two, Shift::Two, Shift::Two,
    Shift::Two, Shift::Two, Shift::Two, Shift::One,
];

/// Every entry of the first `n` entries of `t` is below `bound`.
pub open spec fn indices_below(t: Seq<u32>, n: nat, bound: u32) -> bool
    decreases n,
{
    n == 0 || (t[n - 1] < bound && indices_below(t, (n - 1) as nat, bound))
}

/// For the first `n` positions `b`, `p` maps `q[b]` back to `b`.
pub open spec fn inverts_upto(p: Seq<u32>, q: Seq<u32>, n: nat) -> bool
    decreases n,
{
    n == 0 || (q[n - 1] < p.len() && p[q[n - 1] as int] == n - 1 && inverts_upto(p, q, (n - 1) as nat))
}

proof fn lemma_indices_below(t: Seq<u32>, n: nat, bound: u32)
    requires
        n <= t.len(),
        indices_below(t, n, bound),
    ensures
        forall|i: int| 0 <= i < n ==> t[i] < bound,
    decreases n,
{
    if n > 0 {
        lemma_indices_below(t, (n - 1) as nat, bound);
    }
}

proof fn lemma_inverts_upto(p: Seq<u32>, q: Seq<u32>, n: nat)
    requires
        n <= q.len(),
        inverts_upto(p, q, n),
    ensures
        forall|i: int| 0 <= i < n ==> q[i] < p.len() && p[q[i] as int] == i,
    decreases n,
{
    if n > 0 {
        lemma_inverts_upto(p, q, (n - 1) as nat);
    }
}

/// Every index in the tables is in range for the width each one reads.
pub proof fn lemma_table_ranges()
    ensures
        forall|i: int| 0 <= i < 64 ==> IP@[i] < 64,
        forall|i: int| 0 <= i < 64 ==> IP_INV@[i] < 64,
        forall|i: int| 0 <= i < 56 ==> PC1@[i] < 64,
        forall|i: int| 0 <= i < 48 ==> PC2@[i] < 56,
        forall|i: int| 0 <= i < 48 ==> E@[i] < 32,
        forall|i: int| 0 <= i < 32 ==> P@[i] < 32,
{
    reveal_with_fuel(indices_below, 65);
    assert(indices_below(IP@, 64, 64));
    assert(indices_below(IP_INV@, 64, 64));
    assert(indices_below(PC1@, 56, 64));
    assert(indices_below(PC2@, 48, 56));
    assert(indices_below(E@, 48, 32));
    assert(indices_below(P@, 32, 32));
    lemma_indices_below(IP@, 64, 64);
    lemma_indices_below(IP_INV@, 64, 64);
    lemma_indices_below(PC1@, 56, 64);
    lemma_indices_below(PC2@, 48, 56);
    lemma_indices_below(E@, 48, 32);
    lemma_indices_below(P@, 32, 32);
}

/// `IP` and `IP_INV` undo each other, position by position.
pub proof fn lemma_ip_inverse()
    ensures
        forall|i: int| 0 <= i < 64 ==> IP@[IP_INV@[i] as int] == i,
        forall|i: int| 0 <= i < 64 ==> IP_INV@[IP@[i] as int] == i,
{
    reveal_with_fuel(inverts_upto, 65);
    assert(inverts_upto(IP@, IP_INV@, 64));
    assert(inverts_upto(IP_INV@, IP@, 64));
    lemma_inverts_upto(IP@, IP_INV@, 64);
    lemma_inverts_upto(IP_INV@, IP@, 64);
}

} // verus!
