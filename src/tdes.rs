//! Triple DES over three keys: encrypt-decrypt-encrypt to encrypt, and
//! decrypt-encrypt-decrypt to decrypt.
use vstd::prelude::*;
use crate::des;
use crate::des::{des_decrypt, des_encrypt};

verus! {

/// Triple DES encryption: encrypt under `k1`, decrypt under `k2`, encrypt
/// under `k3`.
pub open spec fn tdes_encrypt(block: u64, k1: u64, k2: u64, k3: u64) -> u64 {
    des_encrypt(des_decrypt(des_encrypt(block, k1), k2), k3)
}

/// Triple DES decryption: decrypt under `k3`, encrypt under `k2`, decrypt
/// under `k1`.
pub open spec fn tdes_decrypt(block: u64, k1: u64, k2: u64, k3: u64) -> u64 {
    des_decrypt(des_encrypt(des_decrypt(block, k3), k2), k1)
}

pub fn encrypt_block(block: u64, key1: u64, key2: u64, key3: u64) -> (r: u64)
    ensures
        r == tdes_encrypt(block, key1, key2, key3),
{
    let step1 = des::encrypt_block(block, key1);
    let step2 = des::decrypt_block(step1, key2);
    des::encrypt_block(step2, key3)
}

pub fn decrypt_block(block: u64, key1: u64, key2: u64, key3: u64) -> (r: u64)
    ensures
        r == tdes_decrypt(block, key1, key2, key3),
{
    let step1 = des::decrypt_block(block, key3);
    let step2 = des::encrypt_block(step1, key2);
    des::decrypt_block(step2, key1)
}

/// With one key in all three places, triple DES encryption is single DES
/// encryption under that key.
pub proof fn lemma_single_key_encrypt(block: u64, key: u64)
    ensures
        tdes_encrypt(block, key, key, key) == des_encrypt(block, key),
{
    des::lemma_decrypt_encrypt(block, key);
}

/// With one key in all three places, triple DES decryption is single DES
/// decryption under that key.
pub proof fn lemma_single_key_decrypt(block: u64, key: u64)
    ensures
        tdes_decrypt(block, key, key, key) == des_decrypt(block, key),
{
    des::lemma_encrypt_decrypt(des_decrypt(block, key), key);
    des::lemma_decrypt_encrypt(des_decrypt(block, key), key);
}

/// Triple DES decryption under three keys undoes triple DES encryption under
/// the same keys.
pub proof fn lemma_tdes_decrypt_encrypt(block: u64, k1: u64, k2: u64, k3: u64)
    ensures
        tdes_decrypt(tdes_encrypt(block, k1, k2, k3), k1, k2, k3) == block,
{
    let x = des_encrypt(block, k1);
    let y = des_decrypt(x, k2);
    des::lemma_decrypt_encrypt(y, k3);
    des::lemma_encrypt_decrypt(x, k2);
    des::lemma_decrypt_encrypt(block, k1);
}

/// Triple DES encryption under three keys undoes triple DES decryption under
/// the same keys.
pub proof fn lemma_tdes_encrypt_decrypt(block: u64, k1: u64, k2: u64, k3: u64)
    ensures
        tdes_encrypt(tdes_decrypt(block, k1, k2, k3), k1, k2, k3) == block,
{
    let x = des_decrypt(block, k3);
    let y = des_encrypt(x, k2);
    des::lemma_encrypt_decrypt(y, k1);
    des::lemma_decrypt_encrypt(x, k2);
    des::lemma_encrypt_decrypt(block, k3);
}

} // verus!
