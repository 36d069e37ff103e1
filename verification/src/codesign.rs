//! The stable hash of the binary's signing identity, which enters the key
//! derivation.
use vstd::prelude::*;

use sha2::{Digest, Sha256};

use crate::error::{EnvzError, ErrorView};
use crate::text::{owned, push_signed_decimal, push_str, signed_decimal};
use vstd::utf8::encode_utf8;

verus! {

/// The SHA-256 digest of `data`.
pub uninterp spec fn sha256_digest(data: Seq<u8>) -> Seq<u8>;

/// `sha2::Sha256::digest`, named [`sha256_digest`].
#[verifier::external_body]
fn sha256(data: &[u8]) -> (digest: [u8; 32])
    ensures
        digest@ == sha256_digest(data@),
{
    Sha256::digest(data).into()
}

/// The bytes that are hashed: `team_id:signing_id` in UTF-8.
pub open spec fn identity_bytes(team_id: Seq<char>, signing_id: Seq<char>) -> Seq<u8> {
    encode_utf8(team_id) + seq![58u8] + encode_utf8(signing_id)
}

/// The message when the binary carries no team identifier.
pub open spec fn unsigned_message() -> Seq<char> {
    "Binary is not signed with a Developer ID (no team identifier). Sign with: codesign -s \"Developer ID Application: ...\" --identifier net.gnarlylabs.envz <binary>"@
}

/// SHA-256 of `team_id:signing_id`, given the team and signing identifiers
/// read from the binary's code signature; these are stable across rebuilds
/// signed with the same certificate. Either one missing is an error, the
/// team identifier being checked first.
pub fn signing_identity_hash(team_id: Option<&str>, signing_id: Option<&str>) -> (r: Result<[u8; 32], EnvzError>)
    ensures
        match (team_id, signing_id) {
            (None, _) => r matches Err(e) && e@ == ErrorView::Crypto(unsigned_message()),
            (Some(_), None) => r matches Err(e) && e@ == ErrorView::Crypto("Binary has no signing identifier"@),
            (Some(t), Some(s)) => r matches Ok(h) && h@ == sha256_digest(identity_bytes(t@, s@)),
        },
{
    let team = match team_id {
        Some(t) => t,
        None => return Err(EnvzError::Crypto(owned(
            "Binary is not signed with a Developer ID (no team identifier). Sign with: codesign -s \"Developer ID Application: ...\" --identifier net.gnarlylabs.envz <binary>",
        ))),
    };
    let signing = match signing_id {
        Some(s) => s,
        None => return Err(EnvzError::Crypto(owned("Binary has no signing identifier"))),
    };
    let mut data: Vec<u8> = Vec::new();
    data.extend_from_slice(team.as_bytes());
    data.push(58u8);
    data.extend_from_slice(signing.as_bytes());
    assert(data@ =~= identity_bytes(team@, signing@));
    Ok(sha256(data.as_slice()))
}

/// The error for a step of reading the code signature that failed with an
/// OS status code.
pub fn sec_code_failure(step: &str, status: i32) -> (e: EnvzError)
    ensures
        e@ == ErrorView::Crypto(step@ + " failed (error "@ + signed_decimal(status as int) + ")"@),
{
    let mut msg = String::new();
    push_str(&mut msg, step);
    push_str(&mut msg, " failed (error ");
    push_signed_decimal(&mut msg, status as i64);
    push_str(&mut msg, ")");
    assert(msg@ =~= step@ + " failed (error "@ + signed_decimal(status as int) + ")"@);
    EnvzError::Crypto(msg)
}

} // verus!
