//! The vault file: its fields, and how the variables are sealed into it and
//! opened from it.
//!
//! The variables are serialized as a JSON object, encrypted with AES-256-GCM,
//! and the nonce and ciphertext are stored as standard base64 text.
use vstd::prelude::*;

use std::collections::BTreeMap;

use base64::engine::general_purpose::STANDARD as BASE64;
use base64::Engine;
use zeroize::Zeroize;

use crate::crypto::{
    aes256gcm_seal, decrypt, decrypt_result, derive_info, derive_key, encrypt, hkdf_sha256_32,
    lemma_derive_info_injective, PLAINTEXT_MAX,
};
use vstd::utf8::encode_utf8;
use crate::envmap::{keys_sorted, map_of, pairs_view, EnvMap, Pair};
use crate::error::{EnvzError, ErrorView};
use crate::text::{decimal, owned, push_decimal, push_str};

verus! {

/// The only vault format version.
pub const VAULT_VERSION: u32 = 1;

/// The default identity of the vault, which names its keychain entry and
/// enters the key derivation.
pub open spec fn vault_id_text() -> Seq<char> {
    "net.gnarlylabs.envz"@
}

/// The default identity of the vault, which names its keychain entry and
/// enters the key derivation.
pub fn vault_id() -> (id: &'static str)
    ensures
        id@ == vault_id_text(),
{
    "net.gnarlylabs.envz"
}

/// The vault identity in use: the one configured when the program was built,
/// if any, else the default [`vault_id`].
pub fn vault_id_or(configured: Option<&'static str>) -> (id: &'static str)
    ensures
        match configured {
            Some(c) => id@ == c@,
            None => id@ == vault_id_text(),
        },
{
    match configured {
        Some(c) => c,
        None => vault_id(),
    }
}

/// The cipher a vault is sealed with.
#[derive(Debug, Clone, Copy, PartialEq, Eq)]
pub enum Algorithm {
    Aes256Gcm,
}

/// The stored form of a vault: the sealed variables and some bookkeeping.
#[derive(Debug, Clone)]
pub struct VaultFile {
    pub version: u32,
    pub algorithm: Algorithm,
    /// The AES-GCM nonce, in standard base64.
    pub nonce: String,
    /// The AES-GCM ciphertext with its tag, in standard base64.
    pub ciphertext: String,
    /// When the vault was created (RFC 3339).
    pub created_at: String,
    /// When the vault was last sealed (RFC 3339).
    pub updated_at: String,
    /// Whether opening the vault asks for Touch ID.
    pub biometric: bool,
}

// ---------------------------------------------------------------------------
// The outside encoders
// ---------------------------------------------------------------------------

/// The standard base64 text (with padding) of `bytes`.
pub uninterp spec fn base64_encoded(bytes: Seq<u8>) -> Seq<char>;

/// The standard base64 decoding of `text`: the bytes, or the text of the
/// decoding error.
pub uninterp spec fn base64_decoded(text: Seq<char>) -> Result<Seq<u8>, Seq<char>>;

/// The JSON object (serde_json's compact form) holding the given name/value
/// pairs, or the text of the serialization error.
pub uninterp spec fn json_object_bytes(pairs: Seq<Pair>) -> Result<Seq<u8>, Seq<char>>;

/// The name/value pairs of the JSON object in `bytes`, sorted by name, or the
/// text of the parse error.
pub uninterp spec fn json_object_pairs(bytes: Seq<u8>) -> Result<Seq<Pair>, Seq<char>>;

/// A bound on the length of the compact JSON object holding `pairs`: the
/// two braces, and for each pair at most six bytes per character of the
/// name and the value (a control character is written `\u00XX`; any other
/// character takes at most four bytes, or two as an escape), two quotes
/// round each, the colon and a separating comma.
pub open spec fn json_size_bound(pairs: Seq<Pair>) -> nat
    decreases pairs.len(),
{
    if pairs.len() == 0 {
        2
    } else {
        json_size_bound(pairs.drop_last()) + 6 * (pairs.last().0.len() + pairs.last().1.len()) + 6
    }
}

/// `base64::engine::general_purpose::STANDARD.encode`, named
/// [`base64_encoded`]; decoding the text gives the bytes back.
#[verifier::external_body]
fn base64_encode(bytes: &[u8]) -> (text: String)
    ensures
        text@ == base64_encoded(bytes@),
        base64_decoded(text@) is Ok && base64_decoded(text@)->Ok_0 == bytes@,
{
    BASE64.encode(bytes)
}

/// `base64::engine::general_purpose::STANDARD.decode`, named
/// [`base64_decoded`]; an error is turned into its display text.
#[verifier::external_body]
fn base64_decode(text: &str) -> (r: Result<Vec<u8>, String>)
    ensures
        match r {
            Ok(b) => base64_decoded(text@) is Ok && base64_decoded(text@)->Ok_0 == b@,
            Err(m) => base64_decoded(text@) is Err && base64_decoded(text@)->Err_0 == m@,
        },
{
    match BASE64.decode(text) {
        Ok(b) => Ok(b),
        Err(e) => Err(e.to_string()),
    }
}

/// `serde_json::to_vec` of the pairs gathered in a `BTreeMap<&str, &str>`,
/// named [`json_object_bytes`]; an error is turned into its display text.
/// The names are sorted and distinct, so the map keeps every pair, in the
/// same order. Serializing a map of strings into a `Vec` never fails (the
/// keys are strings and writing to a `Vec` cannot fail), and parsing the
/// bytes back with `serde_json::from_slice` into a `BTreeMap<String, String>`
/// gives the same pairs. The compact form writes `{`, the pairs as
/// `"name":"value"` separated by commas, and `}`, escaping each byte of a
/// string into at most six bytes (`ESCAPE` and `write_char_escape` in
/// serde_json's `ser.rs`), so its length is within [`json_size_bound`].
#[verifier::external_body]
fn json_encode_object(pairs: &Vec<(String, String)>) -> (r: Result<Vec<u8>, String>)
    requires
        keys_sorted(pairs_view(pairs@)),
    ensures
        r is Ok,
        r is Ok ==> (json_object_bytes(pairs_view(pairs@)) is Ok && json_object_bytes(
            pairs_view(pairs@),
        )->Ok_0 == r->Ok_0@),
        r is Ok ==> r->Ok_0@.len() <= json_size_bound(pairs_view(pairs@)),
        r is Ok ==> json_object_pairs(r->Ok_0@) is Ok && json_object_pairs(r->Ok_0@)->Ok_0
            == pairs_view(pairs@),
{
    let m: BTreeMap<&str, &str> = pairs.iter().map(|(k, v)| (k.as_str(), v.as_str())).collect();
    match serde_json::to_vec(&m) {
        Ok(b) => Ok(b),
        Err(e) => Err(e.to_string()),
    }
}

/// `serde_json::from_slice` into a `BTreeMap<String, String>`, its pairs
/// handed out in the map's order; named [`json_object_pairs`]. An error is
/// turned into its display text.
#[verifier::external_body]
fn json_decode_object(bytes: &[u8]) -> (r: Result<Vec<(String, String)>, String>)
    ensures
        match r {
            Ok(p) => json_object_pairs(bytes@) is Ok && json_object_pairs(bytes@)->Ok_0
                == pairs_view(p@),
            Err(m) => json_object_pairs(bytes@) is Err && json_object_pairs(bytes@)->Err_0 == m@,
        },
{
    match serde_json::from_slice::<BTreeMap<String, String>>(bytes) {
        Ok(m) => Ok(m.into_iter().collect()),
        Err(e) => Err(e.to_string()),
    }
}

/// `chrono::Utc::now().to_rfc3339()`: the current time. Nothing is said of
/// it: it depends on the clock.
#[verifier::external_body]
fn now_rfc3339() -> (s: String) {
    chrono::Utc::now().to_rfc3339()
}

/// `Zeroize::zeroize` on a `Vec<u8>`: overwrites the bytes and empties it.
#[verifier::external_body]
fn wipe_bytes(v: &mut Vec<u8>)
    ensures
        final(v)@.len() == 0,
{
    v.zeroize();
}

/// `Zeroize::zeroize` on a 32-byte array: overwrites every byte with zero.
#[verifier::external_body]
fn wipe_key(k: &mut [u8; 32])
    ensures
        final(k)@ == Seq::new(32, |i: int| 0u8),
{
    k.zeroize();
}

// ---------------------------------------------------------------------------
// Reading a vault file
// ---------------------------------------------------------------------------

/// Accepts a vault file of the supported version.
pub fn check_vault_version(vault: VaultFile) -> (r: Result<VaultFile, EnvzError>)
    ensures
        vault.version == VAULT_VERSION ==> r == Ok::<VaultFile, EnvzError>(vault),
        vault.version != VAULT_VERSION ==> (r matches Err(e) && e@ == ErrorView::InvalidVault(
            "unsupported vault version: "@ + decimal(vault.version as nat) + " (expected 1)"@,
        )),
{
    if vault.version != VAULT_VERSION {
        let mut msg = String::new();
        push_str(&mut msg, "unsupported vault version: ");
        push_decimal(&mut msg, vault.version as u64);
        push_str(&mut msg, " (expected 1)");
        return Err(EnvzError::InvalidVault(msg));
    }
    Ok(vault)
}

// ---------------------------------------------------------------------------
// Sealing
// ---------------------------------------------------------------------------

/// What opening the sealed payload (`nonce_text`, `ciphertext_text`) with
/// `key` gives: the variables, or the error reported.
pub open spec fn open_payload(key: Seq<u8>, nonce_text: Seq<char>, ciphertext_text: Seq<char>) -> Result<
    Map<Seq<char>, Seq<char>>,
    ErrorView,
> {
    match base64_decoded(nonce_text) {
        Err(m) => Err(ErrorView::InvalidVault("bad nonce: "@ + m)),
        Ok(nonce) => match base64_decoded(ciphertext_text) {
            Err(m) => Err(ErrorView::InvalidVault("bad ciphertext: "@ + m)),
            Ok(ct) => match decrypt_result(key, nonce, ct) {
                Err(e) => Err(e),
                Ok(pt) => match json_object_pairs(pt) {
                    Err(m) => Err(ErrorView::InvalidVault("corrupted data: "@ + m)),
                    Ok(ps) => Ok(map_of(ps)),
                },
            },
        },
    }
}

/// Whether sealing `data` can succeed: its JSON text is not too long to
/// encrypt.
pub open spec fn sealable(data: Seq<Pair>) -> bool {
    json_object_bytes(data) matches Ok(b) && b.len() <= PLAINTEXT_MAX
}

/// `nonce_text` and `ciphertext_text` hold the variables `data` sealed with `key`.
pub open spec fn sealed_payload(key: Seq<u8>, data: Seq<Pair>, nonce_text: Seq<char>, ciphertext_text: Seq<char>) -> bool {
    &&& base64_decoded(nonce_text) is Ok
    &&& base64_decoded(nonce_text)->Ok_0.len() == 12
    &&& json_object_bytes(data) is Ok
    &&& base64_decoded(ciphertext_text) == Ok::<Seq<u8>, Seq<char>>(
        aes256gcm_seal(key, base64_decoded(nonce_text)->Ok_0, json_object_bytes(data)->Ok_0),
    )
    &&& base64_decoded(ciphertext_text)->Ok_0.len() == json_object_bytes(data)->Ok_0.len() + 16
    &&& decrypt_result(key, base64_decoded(nonce_text)->Ok_0, base64_decoded(ciphertext_text)->Ok_0)
        == Ok::<Seq<u8>, ErrorView>(json_object_bytes(data)->Ok_0)
    &&& open_payload(key, nonce_text, ciphertext_text) == Ok::<Map<Seq<char>, Seq<char>>, ErrorView>(map_of(data))
}

/// Serializes and encrypts the variables, returning the base64 texts of the
/// nonce and the ciphertext.
fn seal_payload(key: &[u8; 32], data: &EnvMap) -> (r: Result<(String, String), EnvzError>)
    requires
        data.wf(),
    ensures
        json_object_bytes(data@) is Ok,
        json_object_bytes(data@)->Ok_0.len() <= json_size_bound(data@),
        json_size_bound(data@) <= PLAINTEXT_MAX ==> r is Ok,
        (r is Ok) == sealable(data@),
        r matches Ok((n, c)) ==> sealed_payload(key@, data@, n@, c@),
        r matches Err(e) ==> e@ == ErrorView::Crypto("aead::Error"@),
{
    let mut plaintext = match json_encode_object(data.entries()) {
        Ok(b) => b,
        Err(m) => return Err(EnvzError::Crypto(m)),
    };
    let (nonce, ciphertext) = match encrypt(key, plaintext.as_slice()) {
        Ok(p) => p,
        Err(e) => return Err(e),
    };
    wipe_bytes(&mut plaintext);
    let n = base64_encode(nonce.as_slice());
    let c = base64_encode(ciphertext.as_slice());
    Ok((n, c))
}

/// A new vault holding `data`, sealed with `key`, which asks for Touch ID
/// when opened if `biometric` is set. Opening it with `key` gives `data`
/// back. Fails only when the JSON text of `data` is longer than AES-GCM
/// can seal.
pub fn create_vault(key: &[u8; 32], data: &EnvMap, biometric: bool) -> (r: Result<VaultFile, EnvzError>)
    requires
        data.wf(),
    ensures
        json_object_bytes(data@) is Ok,
        json_object_bytes(data@)->Ok_0.len() <= json_size_bound(data@),
        json_size_bound(data@) <= PLAINTEXT_MAX ==> r is Ok,
        (r is Ok) == sealable(data@),
        r matches Ok(v) ==> {
            &&& v.version == VAULT_VERSION
            &&& v.algorithm == Algorithm::Aes256Gcm
            &&& v.created_at@ == v.updated_at@
            &&& v.biometric == biometric
            &&& sealed_payload(key@, data@, v.nonce@, v.ciphertext@)
        },
        r matches Err(e) ==> e@ == ErrorView::Crypto("aead::Error"@),
{
    let (nonce, ciphertext) = seal_payload(key, data)?;
    let now = now_rfc3339();
    let created_at = now.clone();
    Ok(VaultFile {
        version: VAULT_VERSION,
        algorithm: Algorithm::Aes256Gcm,
        nonce,
        ciphertext,
        created_at,
        updated_at: now,
        biometric,
    })
}

/// Seals `data` into `vault` with `key`, replacing its payload and its
/// update time. Opening it with `key` then gives `data` back. Fails only
/// when the JSON text of `data` is longer than AES-GCM can seal, and then
/// leaves the vault as it was.
pub fn seal_vault(vault: &mut VaultFile, key: &[u8; 32], data: &EnvMap) -> (r: Result<(), EnvzError>)
    requires
        data.wf(),
    ensures
        json_object_bytes(data@) is Ok,
        json_object_bytes(data@)->Ok_0.len() <= json_size_bound(data@),
        json_size_bound(data@) <= PLAINTEXT_MAX ==> r is Ok,
        (r is Ok) == sealable(data@),
        r is Ok ==> {
            &&& final(vault).version == old(vault).version
            &&& final(vault).algorithm == old(vault).algorithm
            &&& final(vault).created_at == old(vault).created_at
            &&& final(vault).biometric == old(vault).biometric
            &&& sealed_payload(key@, data@, final(vault).nonce@, final(vault).ciphertext@)
        },
        r matches Err(e) ==> e@ == ErrorView::Crypto("aead::Error"@) && *final(vault) == *old(vault),
{
    let (nonce, ciphertext) = seal_payload(key, data)?;
    vault.nonce = nonce;
    vault.ciphertext = ciphertext;
    vault.updated_at = now_rfc3339();
    Ok(())
}

// ---------------------------------------------------------------------------
// Opening
// ---------------------------------------------------------------------------

/// The seed bytes from the keychain, which must number 32.
pub fn seed_from_bytes(bytes: &Vec<u8>) -> (r: Result<[u8; 32], EnvzError>)
    ensures
        bytes@.len() == 32 ==> (r matches Ok(s) && s@ == bytes@),
        bytes@.len() != 32 ==> (r matches Err(e) && e@ == ErrorView::Keychain(
            "Invalid seed length"@,
        )),
{
    if bytes.len() != 32 {
        return Err(EnvzError::Keychain(owned("Invalid seed length")));
    }
    let mut seed = [0u8; 32];
    let mut i: usize = 0;
    while i < 32
        invariant
            bytes@.len() == 32,
            i <= 32,
            forall|j: int| 0 <= j < i ==> seed@[j] == bytes@[j],
        decreases 32 - i,
    {
        seed[i] = bytes[i];
        i = i + 1;
    }
    assert(seed@ =~= bytes@);
    Ok(seed)
}

/// The key a seed yields for the vault with identity `vault_id` whose file
/// stands at the absolute path `vault_path`.
pub open spec fn vault_key(
    seed: Seq<u8>,
    codesign_hash: Seq<u8>,
    vault_id: Seq<char>,
    vault_path: Seq<char>,
    app_secret: Seq<char>,
) -> Seq<u8> {
    hkdf_sha256_32(seed, derive_info(codesign_hash, vault_id, vault_path, app_secret))
}

/// What opening a vault gives, from the seed found in the keychain: the
/// variables and the key, or the error reported.
pub open spec fn open_result(
    nonce_text: Seq<char>,
    ciphertext_text: Seq<char>,
    seed: Seq<u8>,
    codesign_hash: Seq<u8>,
    vault_id: Seq<char>,
    vault_path: Seq<char>,
    app_secret: Seq<char>,
) -> Result<(Map<Seq<char>, Seq<char>>, Seq<u8>), ErrorView> {
    if seed.len() != 32 {
        Err(ErrorView::Keychain("Invalid seed length"@))
    } else {
        let key = vault_key(seed, codesign_hash, vault_id, vault_path, app_secret);
        match open_payload(key, nonce_text, ciphertext_text) {
            Ok(m) => Ok((m, key)),
            Err(e) => Err(e),
        }
    }
}

/// Opens a vault, given the seed bytes retrieved from the keychain, the hash
/// of the binary's signing identity, the vault identity, the canonical
/// absolute path of the vault file and the application secret: derives the
/// key, decodes and decrypts the payload, and returns the variables with the
/// key (for sealing again). The seed and the plaintext are wiped.
pub fn open_vault(
    vault: &VaultFile,
    seed_bytes: Vec<u8>,
    codesign_hash: &[u8; 32],
    vault_id: &str,
    vault_path: &str,
    app_secret: &str,
) -> (r: Result<(EnvMap, [u8; 32]), EnvzError>)
    ensures
        match open_result(
            vault.nonce@,
            vault.ciphertext@,
            seed_bytes@,
            codesign_hash@,
            vault_id@,
            vault_path@,
            app_secret@,
        ) {
            Ok((mp, key)) => r matches Ok((m, k)) && m.wf() && m.to_map() == mp && k@ == key,
            Err(e) => r matches Err(x) && x@ == e,
        },
{
    let mut seed_bytes = seed_bytes;
    let ghost seed_view = seed_bytes@;
    let mut seed = seed_from_bytes(&seed_bytes)?;
    wipe_bytes(&mut seed_bytes);
    let master_key = derive_key(&seed, codesign_hash, vault_id, vault_path, app_secret)?;
    wipe_key(&mut seed);
    assert(master_key@ == vault_key(seed_view, codesign_hash@, vault_id@, vault_path@, app_secret@));
    let nonce = match base64_decode(vault.nonce.as_str()) {
        Ok(b) => b,
        Err(m) => {
            let mut msg = String::new();
            push_str(&mut msg, "bad nonce: ");
            push_str(&mut msg, m.as_str());
            return Err(EnvzError::InvalidVault(msg));
        },
    };
    let ciphertext = match base64_decode(vault.ciphertext.as_str()) {
        Ok(b) => b,
        Err(m) => {
            let mut msg = String::new();
            push_str(&mut msg, "bad ciphertext: ");
            push_str(&mut msg, m.as_str());
            return Err(EnvzError::InvalidVault(msg));
        },
    };
    let mut plaintext = decrypt(&master_key, nonce.as_slice(), ciphertext.as_slice())?;
    let pairs = match json_decode_object(plaintext.as_slice()) {
        Ok(p) => p,
        Err(m) => {
            let mut msg = String::new();
            push_str(&mut msg, "corrupted data: ");
            push_str(&mut msg, m.as_str());
            return Err(EnvzError::InvalidVault(msg));
        },
    };
    wipe_bytes(&mut plaintext);
    let data = EnvMap::from_pairs(&pairs);
    Ok((data, master_key))
}

/// Opening a vault sealed with the key that the keychain's seed yields for
/// its identity and path gives back exactly what was sealed, together with
/// that key.
pub proof fn lemma_open_sealed(
    data: Seq<Pair>,
    nonce_text: Seq<char>,
    ciphertext_text: Seq<char>,
    seed: Seq<u8>,
    codesign_hash: Seq<u8>,
    vault_id: Seq<char>,
    vault_path: Seq<char>,
    app_secret: Seq<char>,
)
    requires
        seed.len() == 32,
        sealed_payload(
            vault_key(seed, codesign_hash, vault_id, vault_path, app_secret),
            data,
            nonce_text,
            ciphertext_text,
        ),
    ensures
        open_result(
            nonce_text,
            ciphertext_text,
            seed,
            codesign_hash,
            vault_id,
            vault_path,
            app_secret,
        ) == Ok::<(Map<Seq<char>, Seq<char>>, Seq<u8>), ErrorView>(
            (map_of(data), vault_key(seed, codesign_hash, vault_id, vault_path, app_secret)),
        ),
{
}

/// A vault is bound to its path: opening it from another absolute path
/// derives its key from another HKDF input than the one it was sealed under
/// (same seed, signing hash, identity and secret), so the key is not the
/// one it was sealed with unless HKDF-SHA256 collides.
pub proof fn lemma_moved_vault_other_key_input(
    codesign_hash: Seq<u8>,
    vault_id: Seq<char>,
    path_sealed: Seq<char>,
    path_opened: Seq<char>,
    app_secret: Seq<char>,
)
    requires
        codesign_hash.len() == 32,
        encode_utf8(vault_id).len() < 0x1_0000_0000,
        encode_utf8(path_sealed).len() < 0x1_0000_0000,
        encode_utf8(path_opened).len() < 0x1_0000_0000,
        encode_utf8(app_secret).len() < 0x1_0000_0000,
        path_sealed != path_opened,
    ensures
        derive_info(codesign_hash, vault_id, path_sealed, app_secret) != derive_info(
            codesign_hash,
            vault_id,
            path_opened,
            app_secret,
        ),
{
    if derive_info(codesign_hash, vault_id, path_sealed, app_secret) == derive_info(
        codesign_hash,
        vault_id,
        path_opened,
        app_secret,
    ) {
        lemma_derive_info_injective(
            codesign_hash,
            vault_id,
            path_sealed,
            app_secret,
            codesign_hash,
            vault_id,
            path_opened,
            app_secret,
        );
    }
}

} // verus!
