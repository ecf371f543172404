//! The mathematical model of the scheme: the results of the cryptographic
//! primitives are given names, and the byte layouts built from them are
//! written out as spec functions, so that every contract of `crate::crypto`
//! can say exactly which bytes come back.

use vstd::prelude::*;

verus! {

// What the outside primitives return, as functions of their inputs alone.
// Nothing is assumed about these values here; the trusted wrappers in
// `crate::primitives` tie each name to the call that computes it.

// One AES-128 encryption of a single 16-byte block under a 16-byte key.
pub uninterp spec fn aes_enc_block(key: Seq<u8>, block: Seq<u8>) -> Seq<u8>;

// One AES-128 decryption of a single 16-byte block under a 16-byte key.
pub uninterp spec fn aes_dec_block(key: Seq<u8>, block: Seq<u8>) -> Seq<u8>;

// The 32-byte SHA-256 digest of a byte sequence.
pub uninterp spec fn sha256_of(data: Seq<u8>) -> Seq<u8>;

// The 32-byte HMAC-SHA256 tag of a message under a key.
pub uninterp spec fn hmac_sha256_of(key: Seq<u8>, data: Seq<u8>) -> Seq<u8>;

// The 24-byte bcrypt output for a cost factor, a 16-byte salt and a password.
pub uninterp spec fn bcrypt_of(cost: int, salt: Seq<u8>, password: Seq<u8>) -> Seq<u8>;

/// The view of an optional byte buffer, for stating contracts on `Option` results.
pub open spec fn opt_bytes(r: Option<Vec<u8>>) -> Option<Seq<u8>> {
    match r {
        Some(v) => Some(v@),
        None => None,
    }
}

/// Every byte XORed with the wrapping constant 0x88.
pub open spec fn xor_with_88(s: Seq<u8>) -> Seq<u8> {
    Seq::new(s.len(), |i: int| s[i] ^ 0x88)
}

/// The byte-wise XOR of a 16-byte block with another.
pub open spec fn xor_block(a: Seq<u8>, b: Seq<u8>) -> Seq<u8> {
    Seq::new(16, |i: int| a[i] ^ b[i])
}

/// A single cipher block of the CBC chain, normalised to 16 bytes.
pub open spec fn enc_block(key: Seq<u8>, block: Seq<u8>) -> Seq<u8> {
    Seq::new(16, |i: int| aes_enc_block(key, block)[i])
}

/// A single decrypted block of the CBC chain, normalised to 16 bytes.
pub open spec fn dec_block(key: Seq<u8>, block: Seq<u8>) -> Seq<u8> {
    Seq::new(16, |i: int| aes_dec_block(key, block)[i])
}

/// CBC-mode encryption of a whole number of 16-byte blocks: each plaintext
/// block is XORed with the previous ciphertext block (the IV for the first)
/// and then encrypted.
pub open spec fn cbc_encrypt(key: Seq<u8>, iv: Seq<u8>, data: Seq<u8>) -> Seq<u8>
    decreases data.len(),
{
    if data.len() < 16 {
        Seq::empty()
    } else {
        let c = enc_block(key, xor_block(data.subrange(0, 16), iv));
        c + cbc_encrypt(key, c, data.subrange(16, data.len() as int))
    }
}

/// CBC-mode decryption of a whole number of 16-byte blocks: each ciphertext
/// block is decrypted and then XORed with the previous ciphertext block (the
/// IV for the first).
pub open spec fn cbc_decrypt(key: Seq<u8>, iv: Seq<u8>, data: Seq<u8>) -> Seq<u8>
    decreases data.len(),
{
    if data.len() < 16 {
        Seq::empty()
    } else {
        let c0 = data.subrange(0, 16);
        xor_block(dec_block(key, c0), iv) + cbc_decrypt(key, c0, data.subrange(16, data.len() as int))
    }
}

/// PKCS#7 padding to the 16-byte block size: n bytes of value n are
/// appended, with 1 <= n <= 16, so a full block is added when the length is
/// already a multiple of 16.
pub open spec fn pkcs7_pad(data: Seq<u8>) -> Seq<u8> {
    let n = 16 - (data.len() % 16) as int;
    data + Seq::new(n as nat, |i: int| n as u8)
}

/// PKCS#7 unpadding exactly as the block-padding routine in use performs it:
/// the last byte n must be non-zero, at most the data length, and the last n
/// bytes must all equal n; then the last n bytes are removed.
pub open spec fn pkcs7_unpad(data: Seq<u8>) -> Option<Seq<u8>> {
    if data.len() == 0 {
        None
    } else {
        let n = data.last() as int;
        if n == 0 || n > data.len() {
            None
        } else if exists|i: int| data.len() - n <= i < data.len() && data[i] != data.last() {
            None
        } else {
            Some(data.subrange(0, data.len() - n))
        }
    }
}

/// The cipher half of the sub-key pair derived from a key.
pub open spec fn cipher_subkey_of(key: Seq<u8>) -> Seq<u8> {
    sha256_of(key).subrange(0, 16)
}

/// The MAC half of the sub-key pair derived from a key.
pub open spec fn mac_subkey_of(key: Seq<u8>) -> Seq<u8> {
    sha256_of(key).subrange(16, 32)
}

/// The 16-byte root key derived from a passphrase (as UTF-8 bytes) and a
/// 16-byte salt: the first 16 bytes of bcrypt at cost factor 8, applied to
/// the salt and the SHA-256 hash of the passphrase.
pub open spec fn passphrase_key_model(passphrase: Seq<u8>, salt: Seq<u8>) -> Seq<u8> {
    bcrypt_of(8, salt, sha256_of(passphrase)).subrange(0, 16)
}

/// The bytes covered by the authentication tag: the IV followed by the CBC
/// ciphertext of the padded plaintext. The leading version byte is excluded.
pub open spec fn mac_input(cipher_key: Seq<u8>, iv: Seq<u8>, plaintext: Seq<u8>) -> Seq<u8> {
    iv + cbc_encrypt(cipher_key, iv, pkcs7_pad(plaintext))
}

/// A complete authenticated ciphertext: version byte 1, the IV, the CBC
/// ciphertext, and the HMAC-SHA256 tag over IV and ciphertext.
pub open spec fn ciphertext_model(
    cipher_key: Seq<u8>,
    mac_key: Seq<u8>,
    iv: Seq<u8>,
    plaintext: Seq<u8>,
) -> Seq<u8> {
    seq![1u8] + mac_input(cipher_key, iv, plaintext)
        + hmac_sha256_of(mac_key, mac_input(cipher_key, iv, plaintext))
}

/// What authenticated decryption returns for any candidate byte sequence:
/// too-short or misaligned inputs are rejected before any cryptographic
/// work; then the tag must match; then the ciphertext area must hold at
/// least the IV-sized first block; only then is the ciphertext deciphered
/// and unpadded.
pub open spec fn decrypt_model(cipher_key: Seq<u8>, mac_key: Seq<u8>, msg: Seq<u8>) -> Option<
    Seq<u8>,
> {
    if msg.len() < 33 || msg.len() % 16 != 1 {
        None
    } else {
        let body = msg.subrange(1, msg.len() - 32);
        let tag = msg.subrange(msg.len() - 32, msg.len() as int);
        if tag != hmac_sha256_of(mac_key, body) {
            None
        } else if body.len() < 16 {
            None
        } else {
            pkcs7_unpad(
                cbc_decrypt(cipher_key, body.subrange(0, 16), body.subrange(16, body.len() as int)),
            )
        }
    }
}

/// XORing with 0x88 twice gives the original bytes back.
pub proof fn lemma_xor_with_88_involutive(s: Seq<u8>)
    ensures
        xor_with_88(xor_with_88(s)) == s,
{
    assert(forall|x: u8| (x ^ 0x88) ^ 0x88 == x) by (bit_vector);
    assert(xor_with_88(xor_with_88(s)) =~= s);
}

/// Padding always extends to the next multiple of 16, adding 1 to 16 bytes.
pub proof fn lemma_pkcs7_pad_len(data: Seq<u8>)
    ensures
        pkcs7_pad(data).len() == 16 * (data.len() / 16) + 16,
        pkcs7_pad(data).len() % 16 == 0,
        data.len() < pkcs7_pad(data).len() <= data.len() + 16,
{
}

/// Unpadding inverts padding: stripping what pkcs7_pad added gives the
/// original data back, for every byte sequence.
pub proof fn lemma_pkcs7_unpad_pad(data: Seq<u8>)
    ensures
        pkcs7_unpad(pkcs7_pad(data)) == Some(data),
{
    let n = 16 - (data.len() % 16) as int;
    let padded = pkcs7_pad(data);
    assert(padded.len() == data.len() + n);
    assert(padded.last() == n as u8);
    assert(n as u8 as int == n);
    assert forall|i: int| padded.len() - n <= i < padded.len() implies padded[i]
        == padded.last() by {
        assert(padded[i] == n as u8);
    }
    assert(padded.subrange(0, padded.len() - n) =~= data);
}

/// CBC encryption of whole blocks preserves the byte length.
pub proof fn lemma_cbc_encrypt_len(key: Seq<u8>, iv: Seq<u8>, data: Seq<u8>)
    requires
        data.len() % 16 == 0,
    ensures
        cbc_encrypt(key, iv, data).len() == data.len(),
    decreases data.len(),
{
    if data.len() >= 16 {
        let c = enc_block(key, xor_block(data.subrange(0, 16), iv));
        lemma_cbc_encrypt_len(key, c, data.subrange(16, data.len() as int));
    }
}

/// Length rejection: a candidate shorter than 33 bytes, or whose length is
/// not 1 modulo 16, is rejected outright — decryption returns nothing for
/// it, whatever the keys and whatever the remaining bytes hold. (In the
/// executable path this case returns before any MAC or cipher call.)
pub proof fn lemma_malformed_length_rejected(cipher_key: Seq<u8>, mac_key: Seq<u8>, msg: Seq<u8>)
    requires
        msg.len() < 33 || msg.len() % 16 != 1,
    ensures
        decrypt_model(cipher_key, mac_key, msg) == None::<Seq<u8>>,
{
}

/// No plaintext ever comes back past a failed tag check: whenever the
/// trailing 32 bytes differ from the HMAC of bytes 1 through length-32,
/// decryption returns nothing, whatever the cipher key and the rest of the
/// bytes hold.
pub proof fn lemma_mac_mismatch_rejected(cipher_key: Seq<u8>, mac_key: Seq<u8>, msg: Seq<u8>)
    requires
        msg.len() >= 33,
        msg.subrange(msg.len() - 32, msg.len() as int) != hmac_sha256_of(
            mac_key,
            msg.subrange(1, msg.len() - 32),
        ),
    ensures
        decrypt_model(cipher_key, mac_key, msg) == None::<Seq<u8>>,
{
}

/// Where each region of an authenticated ciphertext lies: for a value with
/// the shape and the length that encryption produces, the version byte, the
/// IV, the CBC ciphertext and the 32-byte tag stand at fixed offsets.
pub proof fn lemma_ciphertext_layout(
    cipher_key: Seq<u8>,
    mac_key: Seq<u8>,
    p: Seq<u8>,
    c: Seq<u8>,
)
    requires
        c.len() == 65 + 16 * (p.len() / 16),
        c == ciphertext_model(cipher_key, mac_key, c.subrange(1, 17), p),
    ensures
        c.len() % 16 == 1,
        c.len() >= 65,
        c[0] == 1u8,
        c.subrange(1, c.len() - 32) == mac_input(cipher_key, c.subrange(1, 17), p),
        c.subrange(c.len() - 32, c.len() as int) == hmac_sha256_of(
            mac_key,
            c.subrange(1, c.len() - 32),
        ),
        c.subrange(1, c.len() - 32).len() == 32 + 16 * (p.len() / 16),
        c.subrange(1, c.len() - 32).subrange(0, 16) == c.subrange(1, 17),
        c.subrange(1, c.len() - 32).subrange(16, c.len() - 33) == cbc_encrypt(
            cipher_key,
            c.subrange(1, 17),
            pkcs7_pad(p),
        ),
{
    let q: int = p.len() as int / 16;
    assert(16 * q >= 0);
    let iv = c.subrange(1, 17);
    let padded = pkcs7_pad(p);
    lemma_pkcs7_pad_len(p);
    lemma_cbc_encrypt_len(cipher_key, iv, padded);
    let mi = mac_input(cipher_key, iv, p);
    assert(mi.len() == 16 + padded.len());
    let h = hmac_sha256_of(mac_key, mi);
    assert(c.len() == 1 + mi.len() + h.len());
    assert(h.len() == 32);
    assert(c.len() == 65 + 16 * q);
    assert(c.len() % 16 == 1) by {
        assert(c.len() == 16 * (q + 4) + 1);
    }
    let body = c.subrange(1, c.len() - 32);
    assert(body =~= mi);
    assert(c.subrange(c.len() - 32, c.len() as int) =~= h);
    assert(body.subrange(0, 16) =~= iv);
    assert(body.subrange(16, body.len() as int) =~= cbc_encrypt(cipher_key, iv, padded));
}

/// Tamper detection over the tag region: changing any single bit of the
/// trailing 32 MAC bytes of a well-formed authenticated ciphertext makes
/// decryption reject the whole value. (A change elsewhere in the
/// authenticated region alters the input of the MAC instead, and its
/// rejection is a property of HMAC itself, not of this layout; the leading
/// version byte is outside the authenticated region altogether.)
pub proof fn lemma_tampered_tag_rejected(
    cipher_key: Seq<u8>,
    mac_key: Seq<u8>,
    p: Seq<u8>,
    c: Seq<u8>,
    i: int,
    bit: u8,
)
    requires
        c.len() == 65 + 16 * (p.len() / 16),
        c == ciphertext_model(cipher_key, mac_key, c.subrange(1, 17), p),
        c.len() - 32 <= i < c.len(),
        bit < 8,
    ensures
        decrypt_model(cipher_key, mac_key, c.update(i, c[i] ^ (1u8 << bit))) == None::<Seq<u8>>,
{
    lemma_ciphertext_layout(cipher_key, mac_key, p, c);
    let c2 = c.update(i, c[i] ^ (1u8 << bit));
    let x = c[i];
    let b = bit;
    assert(x ^ (1u8 << b) != x) by (bit_vector)
        requires
            b < 8,
    ;
    assert(c2.subrange(1, c2.len() - 32) =~= c.subrange(1, c.len() - 32));
    let tag2 = c2.subrange(c2.len() - 32, c2.len() as int);
    let tag = c.subrange(c.len() - 32, c.len() as int);
    assert(tag2[i - (c.len() - 32)] != tag[i - (c.len() - 32)]);
    assert(tag2 != hmac_sha256_of(mac_key, c2.subrange(1, c2.len() - 32)));
}

/// The version byte is not authenticated: replacing it changes nothing
/// about what decryption returns, whatever the rest of the value holds.
pub proof fn lemma_version_byte_not_authenticated(
    cipher_key: Seq<u8>,
    mac_key: Seq<u8>,
    msg: Seq<u8>,
    v: u8,
)
    requires
        msg.len() >= 1,
    ensures
        decrypt_model(cipher_key, mac_key, msg.update(0, v)) == decrypt_model(
            cipher_key,
            mac_key,
            msg,
        ),
{
    let m2 = msg.update(0, v);
    if msg.len() < 33 || msg.len() % 16 != 1 {
    } else {
        assert(m2.subrange(1, m2.len() - 32) =~= msg.subrange(1, msg.len() - 32));
        assert(m2.subrange(m2.len() - 32, m2.len() as int) =~= msg.subrange(
            msg.len() - 32,
            msg.len() as int,
        ));
    }
}

/// Passphrase-key derivation is a function of the passphrase and the salt
/// alone: two derivations from the same inputs give the same key.
pub proof fn lemma_passphrase_key_deterministic(
    passphrase: Seq<u8>,
    salt: Seq<u8>,
    k1: Seq<u8>,
    k2: Seq<u8>,
)
    requires
        k1 == passphrase_key_model(passphrase, salt),
        k2 == passphrase_key_model(passphrase, salt),
    ensures
        k1 == k2,
{
}

} // verus!
