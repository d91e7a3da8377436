//! The cipher adapter: one block of the chaotic sponge cipher, under a cipher
//! state built afresh from the key and the initialization value on each call.
use vstd::prelude::*;
use zk_disorder::FractCipher;

verus! {

/// The block that sealing `plaintext` under `key` and `iv` gives.
///
/// The sponge state starts as `[iv[0], iv[1], key[0], key[1]]`, and the first
/// block is XORed with the two rate words of that state, so the key reaches
/// only the blocks that would follow in a longer stream.
pub open spec fn sealed_block(key: Seq<u64>, iv: Seq<u64>, plaintext: Seq<u64>) -> Seq<u64> {
    seq![plaintext[0] ^ iv[0], plaintext[1] ^ iv[1]]
}

/// The block that opening `ciphertext` under `key` and `iv` gives.
pub open spec fn opened_block(key: Seq<u64>, iv: Seq<u64>, ciphertext: Seq<u64>) -> Seq<u64> {
    seq![ciphertext[0] ^ iv[0], ciphertext[1] ^ iv[1]]
}

/// Relies on `FractCipher::new` and `FractCipher::encrypt` of zk_disorder: `new`
/// loads the state `[iv[0], iv[1], key[0], key[1]]` unchanged into the engine,
/// and `encrypt` returns the plaintext XORed with the first two state words
/// (the permutation runs only after the block is produced).
#[verifier::external_body]
pub(crate) fn encrypt_block(key: [u64; 2], iv: [u64; 2], plaintext: [u64; 2]) -> (r: [u64; 2])
    ensures
        r@ == sealed_block(key@, iv@, plaintext@),
{
    let mut cipher = FractCipher::new(key, iv);
    cipher.encrypt(plaintext)
}

/// Relies on `FractCipher::new` and `FractCipher::decrypt` of zk_disorder: `new`
/// loads the state `[iv[0], iv[1], key[0], key[1]]` unchanged into the engine,
/// and `decrypt` returns the ciphertext XORed with the first two state words
/// (the permutation runs only after the block is produced).
#[verifier::external_body]
pub(crate) fn decrypt_block(key: [u64; 2], iv: [u64; 2], ciphertext: [u64; 2]) -> (r: [u64; 2])
    ensures
        r@ == opened_block(key@, iv@, ciphertext@),
{
    let mut cipher = FractCipher::new(key, iv);
    cipher.decrypt(ciphertext)
}

/// Opening a sealed block under the same key and initialization value gives
/// back the plaintext.
pub proof fn lemma_round_trip(key: Seq<u64>, iv: Seq<u64>, plaintext: Seq<u64>)
    requires
        key.len() == 2,
        iv.len() == 2,
        plaintext.len() == 2,
    ensures
        opened_block(key, iv, sealed_block(key, iv, plaintext)) == plaintext,
{
    let c = sealed_block(key, iv, plaintext);
    let (p0, p1, v0, v1) = (plaintext[0], plaintext[1], iv[0], iv[1]);
    assert((p0 ^ v0) ^ v0 == p0) by (bit_vector);
    assert((p1 ^ v1) ^ v1 == p1) by (bit_vector);
    assert(opened_block(key, iv, c) =~= plaintext);
}

/// Sealing is a function of the key, the initialization value and the block
/// alone: equal inputs give equal blocks, whatever was sealed before.
pub proof fn lemma_sealing_deterministic(
    key1: Seq<u64>,
    iv1: Seq<u64>,
    plaintext1: Seq<u64>,
    key2: Seq<u64>,
    iv2: Seq<u64>,
    plaintext2: Seq<u64>,
)
    requires
        key1 == key2,
        iv1 == iv2,
        plaintext1 == plaintext2,
    ensures
        sealed_block(key1, iv1, plaintext1) == sealed_block(key2, iv2, plaintext2),
{
}

} // verus!
