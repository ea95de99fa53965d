//! Symmetric encryption of serialized tokens: AES-256 in CBC mode with
//! PKCS7 padding.  The cipher itself is an outside primitive; its two
//! operations are named here and related by the one fact the token
//! pipeline rests on, that decryption under the same key and IV undoes
//! encryption.
use aes::cipher::block_padding::Pkcs7;
use aes::cipher::{BlockDecryptMut, BlockEncryptMut, KeyIvInit};
use vstd::prelude::*;

verus! {

/// Ciphertext of AES-256-CBC/PKCS7 for a given key, IV and plaintext.
pub uninterp spec fn aes256_cbc_enc(key: Seq<u8>, iv: Seq<u8>, plain: Seq<u8>) -> Seq<u8>;

/// Plaintext recovered by AES-256-CBC/PKCS7 decryption, or `None` when
/// the padding check rejects the ciphertext.
pub uninterp spec fn aes256_cbc_dec(key: Seq<u8>, iv: Seq<u8>, cipher: Seq<u8>) -> Option<Seq<u8>>;

/// Relies on `cbc::Encryptor<aes::Aes256>` with `Pkcs7` padding: the
/// ciphertext is a function of key, IV and plaintext alone; the
/// padding always adds one to sixteen bytes up to the next block
/// boundary; and `cbc::Decryptor` under the same key and IV recovers
/// the plaintext.
#[verifier::external_body]
pub fn encrypt_aes256(key: &[u8], iv: &[u8], plain_text: &[u8]) -> (r: Vec<u8>)
    requires
        key@.len() == 32,
        iv@.len() == 16,
    ensures
        r@ == aes256_cbc_enc(key@, iv@, plain_text@),
        r@.len() == (plain_text@.len() / 16 + 1) * 16,
        aes256_cbc_dec(key@, iv@, r@) == Some(plain_text@),
{
    match cbc::Encryptor::<aes::Aes256>::new_from_slices(key, iv) {
        Ok(enc) => enc.encrypt_padded_vec_mut::<Pkcs7>(plain_text),
        Err(_) => Vec::new(),
    }
}

/// Relies on `cbc::Decryptor<aes::Aes256>` with `Pkcs7` padding: the
/// outcome is a function of key, IV and ciphertext alone; empty or
/// non-block-aligned input and bad padding are reported rather than
/// returned as data; and because CBC under a fixed key and IV is a
/// bijection per block and the padding check is strict, whatever
/// decrypts is the encryption of the recovered plaintext.
#[verifier::external_body]
pub fn decrypt_aes256(key: &[u8], iv: &[u8], encrypt_text: &[u8]) -> (r: Option<Vec<u8>>)
    requires
        key@.len() == 32,
        iv@.len() == 16,
    ensures
        match r {
            Some(p) => aes256_cbc_dec(key@, iv@, encrypt_text@) == Some(p@) && encrypt_text@
                == aes256_cbc_enc(key@, iv@, p@),
            None => aes256_cbc_dec(key@, iv@, encrypt_text@) is None,
        },
        encrypt_text@.len() == 0 || encrypt_text@.len() % 16 != 0 ==> r is None,
{
    match cbc::Decryptor::<aes::Aes256>::new_from_slices(key, iv) {
        Ok(dec) => dec.decrypt_padded_vec_mut::<Pkcs7>(encrypt_text).ok(),
        Err(_) => None,
    }
}

} // verus!
