//! Single-block DES: the key schedule, the round function, and the two block
//! transforms `encrypt_block` and `decrypt_block`.
use vstd::prelude::*;
use crate::bits::{
    bit64, halves56, halves64, joined28s, joined32s, join28s, join32s, lemma_bits64_eq,
    lemma_join_split64, lemma_permuted64_bits, lemma_split_join64, permute32, permute64, permuted32, permuted64, rotate28, rotated28,
    split56, split64,
};
use crate::tables::{lemma_ip_inverse, lemma_table_ranges, E, IP, IP_INV, P, PC1, PC2, SBOX, SHIFTS};

verus! {

/// The 6-bit group `j` (bits `6j..6j+6`) of a 48-bit value held in the top
/// of `x`.
pub open spec fn group6(x: u64, j: int) -> u64 {
    (x >> ((58 - 6 * j) as u64)) & 0x3F
}

/// The substitution of box `j` applied to group `j` of `x`: the outer two
/// bits of the group pick the row, the inner four the column.
pub open spec fn sbox_out(x: u64, j: int) -> u8 {
    let b = group6(x, j);
    let row = ((b >> 4u64) & 2) | (b & 1);
    let col = (b >> 1u64) & 0xF;
    SBOX@[j]@[row as int]@[col as int]
}

/// The outputs of the first `n` boxes, concatenated from the top of a 32-bit
/// value.
pub open spec fn sbox_layer(x: u64, n: nat) -> u32
    decreases n,
{
    if n == 0 {
        0
    } else {
        sbox_layer(x, (n - 1) as nat) | ((sbox_out(x, n - 1) as u32) << ((28 - 4 * (n - 1)) as u32))
    }
}

/// The round function: expand, mix in the round key, substitute, permute.
pub open spec fn round_f(r: u32, key: u64) -> u32 {
    permuted32(sbox_layer(permuted64((r as u64) << 32u64, E@) ^ key, 8), P@)
}

/// The key halves after `n` rounds of rotation from `(c, d)`.
pub open spec fn schedule_state(c: u32, d: u32, n: nat) -> (u32, u32)
    decreases n,
{
    if n == 0 {
        (c, d)
    } else {
        let (c1, d1) = schedule_state(c, d, (n - 1) as nat);
        (rotated28(c1, SHIFTS@[n - 1]), rotated28(d1, SHIFTS@[n - 1]))
    }
}

/// The sixteen round keys grown from the key halves `(c, d)`.
pub open spec fn round_keys_from(c: u32, d: u32) -> Seq<u64> {
    Seq::new(
        16,
        |i: int|
            {
                let (ci, di) = schedule_state(c, d, (i + 1) as nat);
                permuted64(joined28s(ci, di), PC2@)
            },
    )
}

/// The sixteen round keys of `key`, in the order encryption uses them.
pub open spec fn round_keys(key: u64) -> Seq<u64> {
    let (c, d) = halves56(permuted64(key, PC1@));
    round_keys_from(c, d)
}

/// The Feistel network on the halves `(l, r)` with the round keys `ks`, each
/// round swapping the halves.
pub open spec fn feistel(l: u32, r: u32, ks: Seq<u64>) -> (u32, u32)
    decreases ks.len(),
{
    if ks.len() == 0 {
        (l, r)
    } else {
        let (a, b) = feistel(l, r, ks.drop_last());
        (b, a ^ round_f(b, ks.last()))
    }
}

/// The DES transform of `block` under the round keys `ks`: the initial
/// permutation, the rounds, the halves put back unswapped, the inverse
/// permutation.
pub open spec fn des_with_keys(block: u64, ks: Seq<u64>) -> u64 {
    let (l, r) = halves64(permuted64(block, IP@));
    let (a, b) = feistel(l, r, ks);
    permuted64(joined32s(b, a), IP_INV@)
}

/// DES encryption of `block` under `key`.
pub open spec fn des_encrypt(block: u64, key: u64) -> u64 {
    des_with_keys(block, round_keys(key))
}

/// DES decryption of `block` under `key`: the same transform with the round
/// keys in reverse order.
pub open spec fn des_decrypt(block: u64, key: u64) -> u64 {
    des_with_keys(block, round_keys(key).reverse())
}

pub fn f(r: u32, key: u64) -> (out: u32)
    ensures
        out == round_f(r, key),
{
    proof {
        lemma_table_ranges();
    }
    let block = permute64((r as u64) << 32, &E) ^ key;
    let mut s_result: u32 = 0;
    let mut i: usize = 0;
    while i < 8
        invariant
            i <= 8,
            s_result == sbox_layer(block, i as nat),
        decreases 8 - i,
    {
        let shift: u64 = (58 - 6 * i) as u64;
        let b: u64 = (block >> shift) & 0x3F;
        let row: u64 = ((b >> 4) & 2) | (b & 1);
        let col: u64 = (b >> 1) & 0xF;
        assert(row < 4 && col < 16) by (bit_vector)
            requires
                row == ((b >> 4u64) & 2) | (b & 1),
                col == (b >> 1u64) & 0xF,
        ;
        let s_val = SBOX[i][row as usize][col as usize] as u32;
        s_result = s_result | (s_val << ((28 - 4 * i) as u32));
        i = i + 1;
    }
    permute32(s_result, &P)
}

pub fn key_schedule(c: u32, d: u32, iter: usize) -> (r: (u64, u32, u32))
    requires
        iter < 16,
    ensures
        r.1 == rotated28(c, SHIFTS@[iter as int]),
        r.2 == rotated28(d, SHIFTS@[iter as int]),
        r.0 == permuted64(joined28s(r.1, r.2), PC2@),
        forall|b: u32| 48 <= b < 64 ==> !bit64(r.0, b),
        c & 0xF == 0 ==> r.1 & 0xF == 0,
        d & 0xF == 0 ==> r.2 & 0xF == 0,
{
    proof {
        lemma_table_ranges();
    }
    let shifts = SHIFTS[iter];
    let c = rotate28(c, shifts);
    let d = rotate28(d, shifts);
    (permute64(join28s(c, d), &PC2), c, d)
}

pub fn encrypt_block(block: u64, key: u64) -> (r: u64)
    ensures
        r == des_encrypt(block, key),
{
    proof {
        lemma_table_ranges();
    }
    let (mut l, mut r) = split64(permute64(block, &IP));
    let (mut c, mut d) = split56(permute64(key, &PC1));
    let ghost l0 = l;
    let ghost r0 = r;
    let ghost c0 = c;
    let ghost d0 = d;
    let ghost ks = round_keys(key);
    let mut round: usize = 0;
    while round < 16
        invariant
            round <= 16,
            ks == round_keys_from(c0, d0),
            (c, d) == schedule_state(c0, d0, round as nat),
            round < 16 ==> (l, r) == feistel(l0, r0, ks.take(round as int)),
            round == 16 ==> (r, l) == feistel(l0, r0, ks),
        decreases 16 - round,
    {
        let (round_key, c1, d1) = key_schedule(c, d, round);
        c = c1;
        d = d1;
        assert(round_key == ks[round as int]);
        assert(ks.take(round as int + 1).drop_last() =~= ks.take(round as int));
        if round != 15 {
            let next_r = l ^ f(r, round_key);
            l = r;
            r = next_r;
        } else {
            assert(ks.take(16) =~= ks);
            l = l ^ f(r, round_key);
        }
        round = round + 1;
    }
    permute64(join32s(l, r), &IP_INV)
}

pub fn decrypt_block(block: u64, key: u64) -> (r: u64)
    ensures
        r == des_decrypt(block, key),
{
    proof {
        lemma_table_ranges();
    }
    let (mut l, mut r) = split64(permute64(block, &IP));
    let (mut c, mut d) = split56(permute64(key, &PC1));
    let ghost l0 = l;
    let ghost r0 = r;
    let ghost c0 = c;
    let ghost d0 = d;
    let ghost ks = round_keys(key);
    let mut keys: Vec<u64> = Vec::new();
    let mut round: usize = 0;
    while round < 16
        invariant
            round <= 16,
            ks == round_keys_from(c0, d0),
            (c, d) == schedule_state(c0, d0, round as nat),
            keys@ == ks.take(round as int),
        decreases 16 - round,
    {
        let (round_key, c1, d1) = key_schedule(c, d, round);
        c = c1;
        d = d1;
        keys.push(round_key);
        assert(keys@ =~= ks.take(round as int + 1));
        round = round + 1;
    }
    assert(keys@ =~= ks);
    let ghost rks = ks.reverse();
    while round > 0
        invariant
            round <= 16,
            keys@ == ks,
            ks.len() == 16,
            rks == ks.reverse(),
            round > 0 ==> (l, r) == feistel(l0, r0, rks.take(16 - round)),
            round == 0 ==> (r, l) == feistel(l0, r0, rks),
        decreases round,
    {
        round = round - 1;
        let round_key = keys[round];
        assert(round_key == rks[15 - round]);
        assert(rks.take(16 - round).drop_last() =~= rks.take(15 - round));
        if round != 0 {
            let next_r = l ^ f(r, round_key);
            l = r;
            r = next_r;
        } else {
            assert(rks.take(16) =~= rks);
            l = l ^ f(r, round_key);
        }
    }
    permute64(join32s(l, r), &IP_INV)
}

proof fn lemma_xor_cancel(a: u32, z: u32)
    by (bit_vector)
    ensures
        (a ^ z) ^ z == a,
{
}

/// A round key put in front of the sequence acts first.
proof fn lemma_feistel_front(x: u32, y: u32, k: u64, s: Seq<u64>)
    ensures
        feistel(x, y, seq![k] + s) == feistel(y, x ^ round_f(y, k), s),
    decreases s.len(),
{
    let t = seq![k] + s;
    if s.len() == 0 {
        assert(t.drop_last() =~= Seq::<u64>::empty());
        assert(t.last() == k);
        assert(feistel(x, y, t.drop_last()) == (x, y));
        assert(feistel(y, x ^ round_f(y, k), s) == (y, x ^ round_f(y, k)));
    } else {
        let z = x ^ round_f(y, k);
        assert(t.drop_last() =~= seq![k] + s.drop_last());
        assert(t.last() == s.last());
        lemma_feistel_front(x, y, k, s.drop_last());
        assert(feistel(x, y, t.drop_last()) == feistel(y, z, s.drop_last()));
    }
}

/// Running the network again on the swapped output, with the round keys
/// reversed, gives back the swapped input.
pub proof fn lemma_feistel_inverse(l: u32, r: u32, ks: Seq<u64>)
    ensures
        ({
            let (a, b) = feistel(l, r, ks);
            feistel(b, a, ks.reverse()) == (r, l)
        }),
    decreases ks.len(),
{
    if ks.len() > 0 {
        let rest = ks.drop_last();
        let k = ks.last();
        let (a1, b1) = feistel(l, r, rest);
        let z = round_f(b1, k);
        lemma_feistel_inverse(l, r, rest);
        assert(ks.reverse() =~= seq![k] + rest.reverse());
        lemma_feistel_front(a1 ^ z, b1, k, rest.reverse());
        lemma_xor_cancel(a1, z);
        assert(feistel(l, r, ks) == (b1, a1 ^ z));
        assert(feistel(a1 ^ z, b1, ks.reverse()) == feistel(b1, a1, rest.reverse()));
    }
}

/// `IP_INV` undoes `IP`, and `IP` undoes `IP_INV`.
pub proof fn lemma_ip_round_trip(x: u64)
    ensures
        permuted64(permuted64(x, IP@), IP_INV@) == x,
        permuted64(permuted64(x, IP_INV@), IP@) == x,
{
    lemma_table_ranges();
    lemma_ip_inverse();
    let y = permuted64(x, IP@);
    let z = permuted64(x, IP_INV@);
    lemma_permuted64_bits(x, IP@);
    lemma_permuted64_bits(x, IP_INV@);
    lemma_permuted64_bits(y, IP_INV@);
    lemma_permuted64_bits(z, IP@);
    assert forall|b: u32| b < 64 implies bit64(permuted64(y, IP_INV@), b) == bit64(x, b) by {
        assert(IP@[IP_INV@[b as int] as int] == b);
    }
    assert forall|b: u32| b < 64 implies bit64(permuted64(z, IP@), b) == bit64(x, b) by {
        assert(IP_INV@[IP@[b as int] as int] == b);
    }
    lemma_bits64_eq(permuted64(y, IP_INV@), x);
    lemma_bits64_eq(permuted64(z, IP@), x);
}

/// The transform under the reversed round keys undoes the transform under
/// the round keys, whatever they are.
pub proof fn lemma_des_with_keys_inverse(block: u64, ks: Seq<u64>)
    ensures
        des_with_keys(des_with_keys(block, ks), ks.reverse()) == block,
{
    let x = permuted64(block, IP@);
    let (l, r) = halves64(x);
    let (a, b) = feistel(l, r, ks);
    let y = joined32s(b, a);
    lemma_ip_round_trip(y);
    lemma_ip_round_trip(block);
    lemma_split_join64(b, a);
    lemma_join_split64(x);
    lemma_feistel_inverse(l, r, ks);
}

/// Decrypting under a key undoes encrypting under it.
pub proof fn lemma_decrypt_encrypt(block: u64, key: u64)
    ensures
        des_decrypt(des_encrypt(block, key), key) == block,
{
    lemma_des_with_keys_inverse(block, round_keys(key));
}

/// Encrypting under a key undoes decrypting under it.
pub proof fn lemma_encrypt_decrypt(block: u64, key: u64)
    ensures
        des_encrypt(des_decrypt(block, key), key) == block,
{
    let ks = round_keys(key);
    lemma_des_with_keys_inverse(block, ks.reverse());
    assert(ks.reverse().reverse() =~= ks);
}

} // verus!
