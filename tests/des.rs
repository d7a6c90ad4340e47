use des_cipher::des::{decrypt_block, encrypt_block, f, key_schedule};
use des_cipher::tdes;

#[test]
fn test_f() {
    assert_eq!(f(0xF0AAF0AA, 0x1B02EFFC70720000), 0x234AA9BB);
}

#[test]
fn test_key_schedule() {
    let (mut c, mut d) = (0xF0CCAAF0, 0x556678F0);
    let mut key;

    let cd_rounds: [[u32; 2]; 16] = [
        [0xE19955F0, 0xAACCF1E0],
        [0xC332ABF0, 0x5599E3D0],
        [0x0CCAAFF0, 0x56678F50],
        [0x332ABFC0, 0x599E3D50],
        [0xCCAAFF00, 0x6678F550],
        [0x32ABFC30, 0x99E3D550],
        [0xCAAFF0C0, 0x678F5560],
        [0x2ABFC330, 0x9E3D5590],
        [0x557F8660, 0x3C7AAB30],
        [0x55FE1990, 0xF1EAACC0],
        [0x57F86650, 0xC7AAB330],
        [0x5FE19950, 0x1EAACCF0],
        [0x7F866550, 0x7AAB33C0],
        [0xFE199550, 0xEAACCF10],
        [0xF8665570, 0xAAB33C70],
        [0xF0CCAAF0, 0x556678F0],
    ];

    let keys: [u64; 16] = [
        0x1B02EFFC70720000,
        0x79AED9DBC9E50000,
        0x55FC8A42CF990000,
        0x72ADD6DB351D0000,
        0x7CEC07EB53A80000,
        0x63A53E507B2F0000,
        0xEC84B7F618BC0000,
        0xF78A3AC13BFB0000,
        0xE0DBEBEDE7810000,
        0xB1F347BA464F0000,
        0x215FD3DED3860000,
        0x7571F59467E90000,
        0x97C5D1FABA410000,
        0x5F43B7F2E73A0000,
        0xBF918D3D3F0A0000,
        0xCB3D8B0E17F50000,
    ];

    for round in 0..16 {
        (key, c, d) = key_schedule(c, d, round);
        assert_eq!(c, cd_rounds[round][0]);
        assert_eq!(d, cd_rounds[round][1]);
        assert_eq!(key, keys[round]);
    }
}

#[test]
fn test_encrypt_block() {
    let block = 0x0123456789ABCDEF;
    let key = 0x133457799BBCDFF1;
    assert_eq!(encrypt_block(block, key), 0x85E813540F0AB405);

    let block = 0x8787878787878787;
    let key = 0x0E329232EA6D0D73;
    assert_eq!(encrypt_block(block, key), 0x0);
}

#[test]
fn test_decrypt_block() {
    let block = 0x85E813540F0AB405;
    let key = 0x133457799BBCDFF1;
    assert_eq!(decrypt_block(block, key), 0x0123456789ABCDEF);
}

#[test]
fn decrypt_zero_block_gives_back_plaintext() {
    assert_eq!(decrypt_block(0x0, 0x0E329232EA6D0D73), 0x8787878787878787);
}

#[test]
fn round_trip_on_assorted_values() {
    let values: [u64; 5] = [0, u64::MAX, 0x0123456789ABCDEF, 0xFEDCBA9876543210, 0x8000000000000001];
    for &block in values.iter() {
        for &key in values.iter() {
            assert_eq!(decrypt_block(encrypt_block(block, key), key), block);
            assert_eq!(encrypt_block(decrypt_block(block, key), key), block);
        }
    }
}

#[test]
fn known_answer_all_zero() {
    assert_eq!(encrypt_block(0x0000000000000000, 0x0000000000000000), 0x8CA64DE9C1B123A7);
}

#[test]
fn tdes_single_key_matches_des() {
    let block: u64 = 0x0123456789ABCDEF;
    let key: u64 = 0x133457799BBCDFF1;
    assert_eq!(tdes::encrypt_block(block, key, key, key), 0x85E813540F0AB405);
    assert_eq!(tdes::decrypt_block(0x85E813540F0AB405, key, key, key), block);
}

#[test]
fn tdes_round_trip_three_keys() {
    let block: u64 = 0x0123456789ABCDEF;
    let (k1, k2, k3) = (0x0123456789ABCDEF, 0xFEDCBA9876543210, 0x89ABCDEF01234567);
    let cipher = tdes::encrypt_block(block, k1, k2, k3);
    assert_ne!(cipher, block);
    assert_ne!(cipher, encrypt_block(block, k1));
    assert_eq!(tdes::decrypt_block(cipher, k1, k2, k3), block);
    assert_eq!(tdes::encrypt_block(tdes::decrypt_block(block, k1, k2, k3), k1, k2, k3), block);
}

#[test]
fn tdes_is_composition_of_des() {
    let block: u64 = 0x1122334455667788;
    let (k1, k2, k3) = (0x0123456789ABCDEF, 0xFEDCBA9876543210, 0x89ABCDEF01234567);
    let expected = encrypt_block(decrypt_block(encrypt_block(block, k1), k2), k3);
    assert_eq!(tdes::encrypt_block(block, k1, k2, k3), expected);
    let expected = decrypt_block(encrypt_block(decrypt_block(block, k3), k2), k1);
    assert_eq!(tdes::decrypt_block(block, k1, k2, k3), expected);
}
