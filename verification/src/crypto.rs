//! Key derivation and authenticated encryption of the vault payload.
//!
//! A random 32-byte seed (kept in the keychain) is turned into the AES-256
//! key by HKDF-SHA256, with an `info` string that binds the key to the
//! binary's signing identity, the vault identity, the vault file's absolute
//! path and an application secret.
//! The payload is sealed with AES-256-GCM under a fresh random 12-byte nonce.
use vstd::prelude::*;

use aes_gcm::aead::{Aead, KeyInit};
use aes_gcm::{Aes256Gcm, Nonce};
use hkdf::Hkdf;
use rand::RngCore;
use sha2::Sha256;

use crate::error::{EnvzError, ErrorView};
use crate::text::{decimal, owned, push_decimal, push_str};
use vstd::utf8::encode_utf8;

verus! {

/// The length of an AES-256-GCM nonce, in bytes.
pub const NONCE_LEN: usize = 12;

/// The longest plaintext AES-GCM seals: 2^36 bytes.
pub const PLAINTEXT_MAX: u64 = 68719476736u64;

// ---------------------------------------------------------------------------
// The outside primitives
// ---------------------------------------------------------------------------

/// The AES-256-GCM sealing of `plaintext` under `key` and `nonce`, with no
/// associated data: the ciphertext followed by the 16-byte tag.
pub uninterp spec fn aes256gcm_seal(key: Seq<u8>, nonce: Seq<u8>, plaintext: Seq<u8>) -> Seq<u8>;

/// The AES-256-GCM opening of `ciphertext` under `key` and `nonce`, with no
/// associated data: the plaintext, or `None` when authentication fails.
pub uninterp spec fn aes256gcm_open(key: Seq<u8>, nonce: Seq<u8>, ciphertext: Seq<u8>) -> Option<
    Seq<u8>,
>;

/// HKDF-SHA256 (RFC 5869) with no salt: 32 bytes of output keying material
/// derived from `ikm` and `info`.
pub uninterp spec fn hkdf_sha256_32(ikm: Seq<u8>, info: Seq<u8>) -> Seq<u8>;

#[verifier::external_type_specification]
#[verifier::external_body]
pub struct ExAeadError(aes_gcm::aead::Error);

#[verifier::external_type_specification]
#[verifier::external_body]
pub struct ExInvalidLength(hkdf::InvalidLength);

/// Fills `buf` from `rand::thread_rng()` (`RngCore::fill_bytes`). Nothing is
/// said of the bytes: they are random.
#[verifier::external_body]
fn fill_random<const N: usize>(buf: &mut [u8; N]) {
    rand::thread_rng().fill_bytes(buf);
}

/// `Aead::encrypt` of `Aes256Gcm` with no associated data. The crate fails
/// exactly when the plaintext is longer than 2^36 bytes (its `P_MAX`); the
/// result is named [`aes256gcm_seal`]: the ciphertext, as long as the
/// plaintext, followed by the 16-byte tag. Opening it under the same key and
/// nonce gives the plaintext back (GCM decryption recomputes the same tag and
/// undoes the same keystream).
#[verifier::external_body]
fn aes256gcm_encrypt(key: &[u8; 32], nonce: &[u8; 12], plaintext: &[u8]) -> (r: Result<
    Vec<u8>,
    aes_gcm::aead::Error,
>)
    ensures
        (r is Ok) == (plaintext@.len() <= PLAINTEXT_MAX),
        r matches Ok(c) ==> c@ == aes256gcm_seal(key@, nonce@, plaintext@) && c@.len()
            == plaintext@.len() + 16 && aes256gcm_open(key@, nonce@, c@) == Some(plaintext@),
{
    Aes256Gcm::new(key.into()).encrypt(Nonce::from_slice(nonce), plaintext)
}

/// `Aead::decrypt` of `Aes256Gcm` with no associated data; its result is
/// named [`aes256gcm_open`]. `Nonce::from_slice` panics unless the nonce has
/// 12 bytes.
#[verifier::external_body]
fn aes256gcm_decrypt(key: &[u8; 32], nonce: &[u8], ciphertext: &[u8]) -> (r: Result<
    Vec<u8>,
    aes_gcm::aead::Error,
>)
    requires
        nonce@.len() == 12,
    ensures
        r matches Ok(p) ==> aes256gcm_open(key@, nonce@, ciphertext@) == Some(p@),
        r is Err ==> aes256gcm_open(key@, nonce@, ciphertext@) is None,
{
    Aes256Gcm::new(key.into()).decrypt(Nonce::from_slice(nonce), ciphertext)
}

/// `Hkdf::<Sha256>::new(None, ikm)` followed by `expand(info, &mut okm)` into
/// 32 bytes. `expand` fails only for more than 255 * 32 bytes of output, so
/// here it succeeds; the key is named [`hkdf_sha256_32`].
#[verifier::external_body]
fn hkdf_sha256_expand(ikm: &[u8; 32], info: &[u8]) -> (r: Result<[u8; 32], hkdf::InvalidLength>)
    ensures
        r is Ok,
        r matches Ok(k) ==> k@ == hkdf_sha256_32(ikm@, info@),
{
    let hk = Hkdf::<Sha256>::new(None, ikm);
    let mut okm = [0u8; 32];
    hk.expand(info, &mut okm)?;
    Ok(okm)
}

// ---------------------------------------------------------------------------
// Seeds and key derivation
// ---------------------------------------------------------------------------

/// A fresh random 32-byte seed (kept in the keychain; not itself the key).
pub fn generate_seed() -> (seed: [u8; 32]) {
    let mut seed = [0u8; 32];
    fill_random(&mut seed);
    seed
}

/// The four little-endian bytes of `x`.
pub open spec fn le32(x: u32) -> Seq<u8> {
    seq![(x & 0xff) as u8, ((x >> 8u32) & 0xff) as u8, ((x >> 16u32) & 0xff) as u8, (x >> 24u32) as u8]
}

/// A text as UTF-8 bytes, preceded by their number as four little-endian
/// bytes (the number truncated to 32 bits).
pub open spec fn length_prefixed(text: Seq<char>) -> Seq<u8> {
    le32(encode_utf8(text).len() as u32) + encode_utf8(text)
}

/// The HKDF `info` that binds the key: the code-signing hash, then the vault
/// identity, the vault's absolute path and the application secret, each
/// length-prefixed.
pub open spec fn derive_info(
    codesign_hash: Seq<u8>,
    vault_id: Seq<char>,
    vault_path: Seq<char>,
    app_secret: Seq<char>,
) -> Seq<u8> {
    codesign_hash + length_prefixed(vault_id) + length_prefixed(vault_path) + length_prefixed(
        app_secret,
    )
}

fn push_le32(out: &mut Vec<u8>, x: u32)
    ensures
        final(out)@ == old(out)@ + le32(x),
{
    out.push((x & 0xff) as u8);
    out.push(((x >> 8u32) & 0xff) as u8);
    out.push(((x >> 16u32) & 0xff) as u8);
    out.push((x >> 24u32) as u8);
    assert(final(out)@ =~= old(out)@ + le32(x));
}

fn push_length_prefixed(out: &mut Vec<u8>, text: &str)
    ensures
        final(out)@ == old(out)@ + length_prefixed(text@),
{
    let bytes = text.as_bytes();
    push_le32(out, #[verifier::truncate] (bytes.len() as u32));
    out.extend_from_slice(bytes);
    assert(final(out)@ =~= old(out)@ + length_prefixed(text@));
}

/// Derives the AES-256 key from the seed with HKDF-SHA256, binding it to the
/// code-signing hash, the vault identity, the vault's absolute path (so that
/// a vault moved elsewhere no longer opens) and the application secret
/// through [`derive_info`].
pub fn derive_key(
    seed: &[u8; 32],
    codesign_hash: &[u8; 32],
    vault_id: &str,
    vault_path: &str,
    app_secret: &str,
) -> (r: Result<[u8; 32], EnvzError>)
    ensures
        r matches Ok(k) && k@ == hkdf_sha256_32(
            seed@,
            derive_info(codesign_hash@, vault_id@, vault_path@, app_secret@),
        ),
{
    let mut info: Vec<u8> = Vec::new();
    info.extend_from_slice(codesign_hash.as_slice());
    assert(info@ =~= codesign_hash@);
    push_length_prefixed(&mut info, vault_id);
    push_length_prefixed(&mut info, vault_path);
    push_length_prefixed(&mut info, app_secret);
    assert(info@ =~= derive_info(codesign_hash@, vault_id@, vault_path@, app_secret@));
    match hkdf_sha256_expand(seed, info.as_slice()) {
        Ok(k) => Ok(k),
        Err(_) => Err(
            EnvzError::Crypto(
                owned("HKDF expand failed: invalid number of blocks, too large output"),
            ),
        ),
    }
}

/// `le32` tells different 32-bit numbers apart.
proof fn lemma_le32_injective(x: u32, y: u32)
    requires
        le32(x) == le32(y),
    ensures
        x == y,
{
    assert(le32(x)[0] == le32(y)[0]);
    assert(le32(x)[1] == le32(y)[1]);
    assert(le32(x)[2] == le32(y)[2]);
    assert(le32(x)[3] == le32(y)[3]);
    assert(((x & 0xff) as u8 == (y & 0xff) as u8 && ((x >> 8u32) & 0xff) as u8 == ((y >> 8u32)
        & 0xff) as u8 && ((x >> 16u32) & 0xff) as u8 == ((y >> 16u32) & 0xff) as u8 && (x
        >> 24u32) as u8 == (y >> 24u32) as u8) ==> x == y) by (bit_vector);
}

/// Reads one length-prefixed text back from the front of `s`: when `s`
/// begins with `length_prefixed(x)`, and `s` begins with `length_prefixed(y)`
/// too, then `x == y` (for texts shorter than 2^32 bytes).
proof fn lemma_length_prefixed_front(x: Seq<char>, y: Seq<char>, rx: Seq<u8>, ry: Seq<u8>)
    requires
        encode_utf8(x).len() < 0x1_0000_0000,
        encode_utf8(y).len() < 0x1_0000_0000,
        length_prefixed(x) + rx == length_prefixed(y) + ry,
    ensures
        x == y,
        rx == ry,
{
    broadcast use vstd::utf8::encode_utf8_decode_utf8;

    let s = length_prefixed(x) + rx;
    let ex = encode_utf8(x);
    let ey = encode_utf8(y);
    assert(s.subrange(0, 4) =~= le32(ex.len() as u32));
    assert((length_prefixed(y) + ry).subrange(0, 4) =~= le32(ey.len() as u32));
    lemma_le32_injective(ex.len() as u32, ey.len() as u32);
    let n = ex.len() as int;
    assert(s.subrange(4, 4 + n) =~= ex);
    assert((length_prefixed(y) + ry).subrange(4, 4 + n) =~= ey);
    assert(s.subrange(4 + n, s.len() as int) =~= rx);
    assert((length_prefixed(y) + ry).subrange(4 + n, s.len() as int) =~= ry);
    assert(vstd::utf8::decode_utf8(ex) == x);
    assert(vstd::utf8::decode_utf8(ey) == y);
}

/// The length prefixes make the key-derivation `info` unambiguous: equal
/// `info` strings come from equal signing hashes, vault identities, vault
/// paths and application secrets (as long as each text is shorter than 2^32
/// bytes). In particular the same vault at another path gets another key
/// derivation input.
pub proof fn lemma_derive_info_injective(
    h1: Seq<u8>,
    v1: Seq<char>,
    p1: Seq<char>,
    a1: Seq<char>,
    h2: Seq<u8>,
    v2: Seq<char>,
    p2: Seq<char>,
    a2: Seq<char>,
)
    requires
        h1.len() == 32,
        h2.len() == 32,
        encode_utf8(v1).len() < 0x1_0000_0000,
        encode_utf8(p1).len() < 0x1_0000_0000,
        encode_utf8(a1).len() < 0x1_0000_0000,
        encode_utf8(v2).len() < 0x1_0000_0000,
        encode_utf8(p2).len() < 0x1_0000_0000,
        encode_utf8(a2).len() < 0x1_0000_0000,
        derive_info(h1, v1, p1, a1) == derive_info(h2, v2, p2, a2),
    ensures
        h1 == h2,
        v1 == v2,
        p1 == p2,
        a1 == a2,
{
    let i1 = derive_info(h1, v1, p1, a1);
    let i2 = derive_info(h2, v2, p2, a2);
    assert(i1.subrange(0, 32) =~= h1);
    assert(i2.subrange(0, 32) =~= h2);
    let r1 = length_prefixed(p1) + length_prefixed(a1);
    let r2 = length_prefixed(p2) + length_prefixed(a2);
    assert(i1.skip(32) =~= length_prefixed(v1) + r1);
    assert(i2.skip(32) =~= length_prefixed(v2) + r2);
    lemma_length_prefixed_front(v1, v2, r1, r2);
    lemma_length_prefixed_front(p1, p2, length_prefixed(a1), length_prefixed(a2));
    assert(length_prefixed(a1) + Seq::<u8>::empty() =~= length_prefixed(a1));
    assert(length_prefixed(a2) + Seq::<u8>::empty() =~= length_prefixed(a2));
    lemma_length_prefixed_front(a1, a2, Seq::<u8>::empty(), Seq::<u8>::empty());
}

/// Key derivation is deterministic: the same seed, signing hash, vault
/// identity, vault path and secret always give the same key, as `derive_key`
/// promises the key [`hkdf_sha256_32`] names for them.
pub proof fn lemma_derive_key_deterministic(
    seed: Seq<u8>,
    codesign_hash: Seq<u8>,
    vault_id: Seq<char>,
    vault_path: Seq<char>,
    app_secret: Seq<char>,
    k1: Seq<u8>,
    k2: Seq<u8>,
)
    requires
        k1 == hkdf_sha256_32(seed, derive_info(codesign_hash, vault_id, vault_path, app_secret)),
        k2 == hkdf_sha256_32(seed, derive_info(codesign_hash, vault_id, vault_path, app_secret)),
    ensures
        k1 == k2,
{
}

// ---------------------------------------------------------------------------
// Encryption
// ---------------------------------------------------------------------------

/// What decrypting `ciphertext` under `key` with the nonce `nonce` gives:
/// the plaintext, or the error reported.
pub open spec fn decrypt_result(key: Seq<u8>, nonce: Seq<u8>, ciphertext: Seq<u8>) -> Result<Seq<u8>, ErrorView> {
    if nonce.len() != 12 {
        Err(ErrorView::Crypto("invalid nonce length: expected 12, got "@ + decimal(nonce.len())))
    } else {
        match aes256gcm_open(key, nonce, ciphertext) {
            Some(p) => Ok(p),
            None => Err(ErrorView::Crypto("decryption failed: invalid key or corrupted data"@)),
        }
    }
}

/// Encrypts `plaintext` under `key` with a fresh random nonce, returning the
/// nonce and the ciphertext (tag included). Decrypting the result under the
/// same key gives `plaintext` back. Fails only for plaintexts longer than
/// 2^36 bytes.
pub fn encrypt(key: &[u8; 32], plaintext: &[u8]) -> (r: Result<(Vec<u8>, Vec<u8>), EnvzError>)
    ensures
        (r is Ok) == (plaintext@.len() <= PLAINTEXT_MAX),
        r matches Ok((n, c)) ==> n@.len() == NONCE_LEN && c@ == aes256gcm_seal(key@, n@, plaintext@)
            && c@.len() == plaintext@.len() + 16
            && decrypt_result(key@, n@, c@) == Ok::<Seq<u8>, ErrorView>(plaintext@),
        r matches Err(e) ==> e@ == ErrorView::Crypto("aead::Error"@),
{
    let mut nonce = [0u8; 12];
    fill_random(&mut nonce);
    match aes256gcm_encrypt(key, &nonce, plaintext) {
        Ok(c) => {
            let mut n: Vec<u8> = Vec::new();
            n.extend_from_slice(nonce.as_slice());
            assert(n@ =~= nonce@);
            Ok((n, c))
        },
        Err(_) => Err(EnvzError::Crypto(owned("aead::Error"))),
    }
}

/// Decrypts `ciphertext` under `key` with the nonce `nonce_bytes`, which must
/// have 12 bytes; fails when authentication fails.
pub fn decrypt(key: &[u8; 32], nonce_bytes: &[u8], ciphertext: &[u8]) -> (r: Result<Vec<u8>, EnvzError>)
    ensures
        match r {
            Ok(p) => decrypt_result(key@, nonce_bytes@, ciphertext@) == Ok::<Seq<u8>, ErrorView>(p@),
            Err(e) => decrypt_result(key@, nonce_bytes@, ciphertext@) == Err::<Seq<u8>, ErrorView>(e@),
        },
{
    if nonce_bytes.len() != NONCE_LEN {
        let mut msg = String::new();
        push_str(&mut msg, "invalid nonce length: expected 12, got ");
        push_decimal(&mut msg, nonce_bytes.len() as u64);
        assert(msg@ =~= "invalid nonce length: expected 12, got "@ + decimal(nonce_bytes@.len()));
        return Err(EnvzError::Crypto(msg));
    }
    match aes256gcm_decrypt(key, nonce_bytes, ciphertext) {
        Ok(p) => Ok(p),
        Err(_) => Err(EnvzError::Crypto(owned("decryption failed: invalid key or corrupted data"))),
    }
}

} // verus!
