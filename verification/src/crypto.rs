//! The executable cryptographic operations: key generation, passphrase key
//! derivation, sub-key derivation, key wrapping and unwrapping, and
//! authenticated encryption and decryption of variable-length content.

use crate::model::{
    aes_dec_block, aes_enc_block, cbc_encrypt, cipher_subkey_of, ciphertext_model, decrypt_model,
    lemma_cbc_encrypt_len, lemma_ciphertext_layout, lemma_pkcs7_pad_len, lemma_pkcs7_unpad_pad,
    lemma_xor_with_88_involutive, mac_input, mac_subkey_of, opt_bytes, passphrase_key_model,
    pkcs7_pad, xor_with_88,
};
use crate::primitives::{
    aes128_decrypt_block, aes128_encrypt_block, bcrypt_stretch, cbc_decrypt_unpad,
    cbc_encrypt_pad, hmac_sha256, hmac_sha256_verify, os_random_16, sha256,
};
use vstd::prelude::*;
use vstd::slice::{slice_subrange, slice_to_vec};
use vstd::string::StringSliceAdditionalSpecFns;

verus! {

/// The pair of independent sub-keys derived from one 16-byte key: a cipher
/// key for CBC encryption and a MAC key for the authentication tag.
pub struct SubKeys {
    cipher: Vec<u8>,
    mac: Vec<u8>,
}

/// The mathematical content of a SubKeys value: the two 16-byte halves.
pub ghost struct SubKeysView {
    pub cipher: Seq<u8>,
    pub mac: Seq<u8>,
}

impl View for SubKeys {
    type V = SubKeysView;

    closed spec fn view(&self) -> SubKeysView {
        SubKeysView { cipher: self.cipher@, mac: self.mac@ }
    }
}

impl SubKeys {
    #[verifier::type_invariant]
    spec fn wf(self) -> bool {
        self.cipher@.len() == 16 && self.mac@.len() == 16
    }

    /// Derives the sub-key pair from a 16-byte key: the first half of the
    /// key's SHA-256 digest becomes the cipher key, the second half the MAC
    /// key. Deterministic, and always succeeds.
    pub fn new(key: &[u8]) -> (r: SubKeys)
        requires
            key@.len() == 16,
        ensures
            r@.cipher == cipher_subkey_of(key@),
            r@.mac == mac_subkey_of(key@),
    {
        let hash = sha256(key);
        let cipher = slice_to_vec(slice_subrange(hash.as_slice(), 0, 16));
        let mac = slice_to_vec(slice_subrange(hash.as_slice(), 16, 32));
        SubKeys { cipher, mac }
    }
}

/// Creates a fresh 16-byte key from the operating system's secure random
/// source. Returns nothing, rather than falling back to a weaker source,
/// when that source is unavailable.
pub fn create_key() -> (r: Option<Vec<u8>>)
    ensures
        r matches Some(k) ==> k@.len() == 16,
{
    os_random_16()
}

/// Derives the 16-byte root key of the hierarchy from a passphrase and the
/// vendor-supplied salt: bcrypt at cost factor 8 stretches the SHA-256 hash
/// of the passphrase, and the first 16 bytes of the stretch become the key.
/// A salt of any length other than the required 16 bytes is rejected rather
/// than truncated or padded.
pub fn create_user_passphrase_key(passphrase: &str, salt: &[u8]) -> (r: Option<Vec<u8>>)
    ensures
        r is Some <==> salt@.len() == 16,
        r matches Some(k) ==> k@ == passphrase_key_model(passphrase.spec_bytes(), salt@),
{
    if salt.len() != 16 {
        return None;
    }
    let hash = sha256(passphrase.as_bytes());
    let stretched = bcrypt_stretch(8, salt, hash.as_slice());
    Some(slice_to_vec(slice_subrange(stretched.as_slice(), 0, 16)))
}

/// Every byte XORed with the wrapping constant 0x88.
fn xor_88(data: &[u8]) -> (r: Vec<u8>)
    ensures
        r@ == xor_with_88(data@),
{
    let mut out: Vec<u8> = Vec::new();
    let mut i: usize = 0;
    while i < data.len()
        invariant
            i <= data@.len(),
            out@ =~= xor_with_88(data@).subrange(0, i as int),
        decreases data@.len() - i,
    {
        out.push(data[i] ^ 0x88);
        i = i + 1;
        assert(out@ =~= xor_with_88(data@).subrange(0, i as int));
    }
    assert(out@ =~= xor_with_88(data@));
    out
}

/// Wraps a 16-byte key under a 16-byte parent key: the child is XORed with
/// 0x88 byte by byte and encrypted as one AES block, with no IV and no MAC.
/// Any other input length cannot be a single-block operation and is
/// rejected before the cipher is invoked.
pub fn encrypt_key(key: &[u8], message: &[u8]) -> (r: Option<Vec<u8>>)
    ensures
        r is Some <==> (key@.len() == 16 && message@.len() == 16),
        r matches Some(w) ==> w@.len() == 16,
        r matches Some(w) ==> w@ == aes_enc_block(key@, xor_with_88(message@)),
{
    if key.len() != 16 || message.len() != 16 {
        return None;
    }
    let xored = xor_88(message);
    Some(aes128_encrypt_block(key, xored.as_slice()))
}

/// Unwraps a 16-byte wrapped key under a 16-byte parent key, inverting
/// encrypt_key: the block is deciphered and XORed with 0x88. Any other
/// input length is rejected before the cipher is invoked; the wrapped form
/// carries no integrity tag, so no other check exists.
pub fn decrypt_key(key: &[u8], message: &[u8]) -> (r: Option<Vec<u8>>)
    ensures
        r is Some <==> (key@.len() == 16 && message@.len() == 16),
        r matches Some(k) ==> k@.len() == 16,
        r matches Some(k) ==> k@ == xor_with_88(aes_dec_block(key@, message@)),
        forall|child: Seq<u8>|
            key@.len() == 16 && message@.len() == 16 && child.len() == 16 && message@
                == aes_enc_block(key@, xor_with_88(child)) ==> opt_bytes(r) == Some(child),
{
    if key.len() != 16 || message.len() != 16 {
        return None;
    }
    let dec = aes128_decrypt_block(key, message);
    let out = xor_88(dec.as_slice());
    proof {
        assert forall|child: Seq<u8>|
            child.len() == 16 && message@ == aes_enc_block(
                key@,
                xor_with_88(child),
            ) implies out@ == child by {
            assert(dec@ == xor_with_88(child));
            lemma_xor_with_88_involutive(child);
        }
    }
    Some(out)
}

/// Authenticated encryption with a caller-supplied 16-byte IV: the exact
/// bytes of the result are a function of the sub-keys, the IV and the
/// plaintext. The value is the version byte 1, the IV, the CBC ciphertext
/// of the padded plaintext under the cipher sub-key, and the HMAC-SHA256
/// tag under the MAC sub-key over everything but the version byte.
pub fn encrypt_with_mac_and_iv(sub_keys: &SubKeys, iv: &[u8], message: &[u8]) -> (r: Vec<u8>)
    requires
        iv@.len() == 16,
        message@.len() + 65 <= usize::MAX,
    ensures
        r@ == ciphertext_model(sub_keys@.cipher, sub_keys@.mac, iv@, message@),
        r@.len() == 65 + 16 * (message@.len() as int / 16),
        r@.subrange(1, 17) == iv@,
{
    proof {
        use_type_invariant(sub_keys);
        lemma_pkcs7_pad_len(message@);
        lemma_cbc_encrypt_len(sub_keys@.cipher, iv@, pkcs7_pad(message@));
    }
    let mut ct = cbc_encrypt_pad(sub_keys.cipher.as_slice(), iv, message);
    let mut body = slice_to_vec(iv);
    body.append(&mut ct);
    assert(body@ == mac_input(sub_keys@.cipher, iv@, message@));
    let mut tag = hmac_sha256(sub_keys.mac.as_slice(), body.as_slice());
    let mut output: Vec<u8> = Vec::new();
    output.push(1u8);
    output.append(&mut body);
    output.append(&mut tag);
    assert(output@ =~= ciphertext_model(sub_keys@.cipher, sub_keys@.mac, iv@, message@));
    assert(output@.subrange(1, 17) =~= iv@);
    output
}

/// Authenticated encryption: a fresh random 16-byte IV is drawn and the
/// plaintext is encrypted as encrypt_with_mac_and_iv describes, the IV
/// standing in bytes 1 to 16 of the result. Returns nothing only when the
/// random source is unavailable.
pub fn encrypt_with_mac(sub_keys: &SubKeys, message: &[u8]) -> (r: Option<Vec<u8>>)
    requires
        message@.len() + 65 <= usize::MAX,
    ensures
        r matches Some(c) ==> c@ == ciphertext_model(
            sub_keys@.cipher,
            sub_keys@.mac,
            c@.subrange(1, 17),
            message@,
        ),
        r matches Some(c) ==> c@.len() == 65 + 16 * (message@.len() as int / 16),
{
    match create_key() {
        None => None,
        Some(iv) => Some(encrypt_with_mac_and_iv(sub_keys, iv.as_slice(), message)),
    }
}

/// Authenticated decryption, the exact inverse of what decrypt_model
/// states: inputs shorter than 33 bytes or of length not 1 modulo 16 are
/// rejected before any cryptographic work; then the HMAC-SHA256 tag is
/// recomputed over bytes 1 through length-32 and compared in constant time,
/// any mismatch rejecting the whole value with no plaintext returned; only
/// then is the ciphertext area deciphered and unpadded, bad padding being
/// rejected too. A value produced by encryption under the same sub-keys
/// always decrypts to the original plaintext (the second clause).
pub fn decrypt_with_mac(sub_keys: &SubKeys, message: &[u8]) -> (r: Option<Vec<u8>>)
    ensures
        opt_bytes(r) == decrypt_model(sub_keys@.cipher, sub_keys@.mac, message@),
        forall|p: Seq<u8>|
            message@.len() == 65 + 16 * (p.len() / 16) && message@ == ciphertext_model(
                sub_keys@.cipher,
                sub_keys@.mac,
                message@.subrange(1, 17),
                p,
            ) ==> opt_bytes(r) == Some(p),
{
    proof {
        use_type_invariant(sub_keys);
    }
    let ghost ck = sub_keys@.cipher;
    let ghost mk = sub_keys@.mac;
    let len = message.len();
    if len < 33 || len % 16 != 1 {
        proof {
            assert forall|p: Seq<u8>|
                message@.len() == 65 + 16 * (p.len() / 16) && message@ == ciphertext_model(
                    ck,
                    mk,
                    message@.subrange(1, 17),
                    p,
                ) implies opt_bytes(None::<Vec<u8>>) == Some(p) by {
                lemma_ciphertext_layout(ck, mk, p, message@);
            }
        }
        return None;
    }
    let body = slice_subrange(message, 1, len - 32);
    let tag = slice_subrange(message, len - 32, len);
    if !hmac_sha256_verify(sub_keys.mac.as_slice(), body, tag) {
        proof {
            assert forall|p: Seq<u8>|
                message@.len() == 65 + 16 * (p.len() / 16) && message@ == ciphertext_model(
                    ck,
                    mk,
                    message@.subrange(1, 17),
                    p,
                ) implies opt_bytes(None::<Vec<u8>>) == Some(p) by {
                lemma_ciphertext_layout(ck, mk, p, message@);
            }
        }
        return None;
    }
    if body.len() < 16 {
        proof {
            assert forall|p: Seq<u8>|
                message@.len() == 65 + 16 * (p.len() / 16) && message@ == ciphertext_model(
                    ck,
                    mk,
                    message@.subrange(1, 17),
                    p,
                ) implies opt_bytes(None::<Vec<u8>>) == Some(p) by {
                lemma_ciphertext_layout(ck, mk, p, message@);
            }
        }
        return None;
    }
    let iv = slice_subrange(body, 0, 16);
    let ct = slice_subrange(body, 16, body.len());
    assert(ct@.len() % 16 == 0);
    let result = cbc_decrypt_unpad(sub_keys.cipher.as_slice(), iv, ct);
    proof {
        assert forall|p: Seq<u8>|
            message@.len() == 65 + 16 * (p.len() / 16) && message@ == ciphertext_model(
                ck,
                mk,
                message@.subrange(1, 17),
                p,
            ) implies opt_bytes(result) == Some(p) by {
            lemma_ciphertext_layout(ck, mk, p, message@);
            lemma_pkcs7_pad_len(p);
            lemma_pkcs7_unpad_pad(p);
            assert(ct@ == cbc_encrypt(ck, iv@, pkcs7_pad(p)));
        }
    }
    result
}

} // verus!
