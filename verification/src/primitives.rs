//! Trusted wrappers around the outside cryptographic crates. Each wrapper
//! holds exactly one outside call; its contract states what that call
//! returns in terms of the names declared in `crate::model`.

use crate::model::{
    aes_dec_block, aes_enc_block, bcrypt_of, cbc_decrypt, cbc_encrypt, hmac_sha256_of, opt_bytes,
    pkcs7_pad, pkcs7_unpad, sha256_of,
};
use aes::cipher::{BlockDecrypt, BlockEncrypt, NewBlockCipher};
use block_modes::BlockMode;
use hmac::{Mac, NewMac};
use rand_os::rand_core::RngCore;
use sha2::Digest;
use vstd::prelude::*;

verus! {

/// Relies on sha2::Sha256: the digest is a function of the input bytes
/// alone, and is 32 bytes long.
#[verifier::external_body]
pub(crate) fn sha256(data: &[u8]) -> (r: Vec<u8>)
    ensures
        r@ == sha256_of(data@),
        r@.len() == 32,
{
    sha2::Sha256::digest(data).to_vec()
}

/// Relies on the bcrypt routine of the crypto crate: the 24-byte output is a
/// function of the cost factor, the 16-byte salt and the password alone. The
/// routine asserts cost < 32, a 16-byte salt, a password of 1 to 72 bytes
/// and a 24-byte output buffer, so those bounds are required here.
#[verifier::external_body]
pub(crate) fn bcrypt_stretch(cost: u32, salt: &[u8], password: &[u8]) -> (r: Vec<u8>)
    requires
        cost < 32,
        salt@.len() == 16,
        0 < password@.len() <= 72,
    ensures
        r@ == bcrypt_of(cost as int, salt@, password@),
        r@.len() == 24,
{
    let mut out = [0u8; 24];
    crypto::bcrypt::bcrypt(cost, salt, password, &mut out);
    out.to_vec()
}

/// Relies on aes::Aes128::encrypt_block: one block encryption, a function of
/// the 16-byte key and the 16-byte block alone, returning 16 bytes.
#[verifier::external_body]
pub(crate) fn aes128_encrypt_block(key: &[u8], block: &[u8]) -> (r: Vec<u8>)
    requires
        key@.len() == 16,
        block@.len() == 16,
    ensures
        r@ == aes_enc_block(key@, block@),
        r@.len() == 16,
{
    let cipher = aes::Aes128::new_from_slice(key).unwrap();
    let mut b = aes::cipher::generic_array::GenericArray::clone_from_slice(block);
    cipher.encrypt_block(&mut b);
    b.to_vec()
}

/// Relies on aes::Aes128::decrypt_block: one block decryption, a function of
/// the 16-byte key and the 16-byte block alone, returning 16 bytes; and on
/// AES-128 being a permutation per key, so that decrypt_block inverts
/// encrypt_block.
#[verifier::external_body]
pub(crate) fn aes128_decrypt_block(key: &[u8], block: &[u8]) -> (r: Vec<u8>)
    requires
        key@.len() == 16,
        block@.len() == 16,
    ensures
        r@ == aes_dec_block(key@, block@),
        r@.len() == 16,
        forall|p: Seq<u8>| p.len() == 16 && block@ == aes_enc_block(key@, p) ==> r@ == p,
{
    let cipher = aes::Aes128::new_from_slice(key).unwrap();
    let mut b = aes::cipher::generic_array::GenericArray::clone_from_slice(block);
    cipher.decrypt_block(&mut b);
    b.to_vec()
}

/// Relies on hmac::Hmac over sha2::Sha256: the 32-byte tag is a function of
/// the key (any length) and the message alone.
#[verifier::external_body]
pub(crate) fn hmac_sha256(key: &[u8], data: &[u8]) -> (r: Vec<u8>)
    ensures
        r@ == hmac_sha256_of(key@, data@),
        r@.len() == 32,
{
    let mut mac = hmac::Hmac::<sha2::Sha256>::new_from_slice(key).unwrap();
    mac.update(data);
    mac.finalize().into_bytes().to_vec()
}

/// Relies on hmac::Hmac over sha2::Sha256 and its verify method, which
/// compares the freshly computed tag against the candidate in constant time
/// and accepts exactly when the two byte strings are equal.
#[verifier::external_body]
pub(crate) fn hmac_sha256_verify(key: &[u8], data: &[u8], tag: &[u8]) -> (r: bool)
    ensures
        r == (tag@ == hmac_sha256_of(key@, data@)),
{
    let mut mac = hmac::Hmac::<sha2::Sha256>::new_from_slice(key).unwrap();
    mac.update(data);
    mac.verify(tag).is_ok()
}

/// Relies on block_modes::Cbc over aes::Aes128 with Pkcs7 padding
/// (encrypt_vec): the input is padded as pkcs7_pad describes and then
/// encrypted in CBC mode block by block.
#[verifier::external_body]
pub(crate) fn cbc_encrypt_pad(key: &[u8], iv: &[u8], data: &[u8]) -> (r: Vec<u8>)
    requires
        key@.len() == 16,
        iv@.len() == 16,
        data@.len() + 16 <= usize::MAX,
    ensures
        r@ == cbc_encrypt(key@, iv@, pkcs7_pad(data@)),
{
    let cipher = block_modes::Cbc::<aes::Aes128, block_modes::block_padding::Pkcs7>::new_from_slices(
        key,
        iv,
    ).unwrap();
    cipher.encrypt_vec(data)
}

/// Relies on block_modes::Cbc over aes::Aes128 with Pkcs7 padding
/// (decrypt_vec): the whole blocks are deciphered in CBC mode and then
/// unpadded as pkcs7_unpad describes, an error becoming None. Since each
/// block decryption inverts the block encryption, an input that is exactly
/// the CBC encryption of some whole blocks deciphers to those blocks (the
/// second clause).
#[verifier::external_body]
pub(crate) fn cbc_decrypt_unpad(key: &[u8], iv: &[u8], data: &[u8]) -> (r: Option<Vec<u8>>)
    requires
        key@.len() == 16,
        iv@.len() == 16,
        data@.len() % 16 == 0,
    ensures
        opt_bytes(r) == pkcs7_unpad(cbc_decrypt(key@, iv@, data@)),
        forall|x: Seq<u8>|
            x.len() % 16 == 0 && data@ == cbc_encrypt(key@, iv@, x) ==> opt_bytes(r)
                == pkcs7_unpad(x),
{
    let cipher = block_modes::Cbc::<aes::Aes128, block_modes::block_padding::Pkcs7>::new_from_slices(
        key,
        iv,
    ).unwrap();
    cipher.decrypt_vec(data).ok()
}

/// Relies on rand_os::OsRng: 16 bytes from the operating system's secure
/// random source, or None when that source cannot be opened or read.
/// Nothing is stated about the bytes themselves beyond their count.
#[verifier::external_body]
pub(crate) fn os_random_16() -> (r: Option<Vec<u8>>)
    ensures
        r matches Some(k) ==> k@.len() == 16,
{
    let mut rng = match rand_os::OsRng::new() {
        Ok(rng) => rng,
        Err(_) => return None,
    };
    let mut out = [0u8; 16];
    match rng.try_fill_bytes(&mut out) {
        Ok(()) => Some(out.to_vec()),
        Err(_) => None,
    }
}

} // verus!
