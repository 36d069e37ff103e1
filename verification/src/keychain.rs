//! What the keychain's status codes mean for the vault tool.
use vstd::prelude::*;

use crate::error::{EnvzError, ErrorView};
use crate::text::{owned, push_signed_decimal, push_str, signed_decimal};

verus! {

/// `errSecSuccess`.
pub const ERR_SEC_SUCCESS: i32 = 0;

/// `errSecItemNotFound`.
pub const ERR_SEC_ITEM_NOT_FOUND: i32 = -25300;

/// `errSecAuthFailed`.
pub const ERR_SEC_AUTH_FAILED: i32 = -25293;

/// `userCanceledErr`.
pub const ERR_SEC_USER_CANCELED: i32 = -128;

/// The outcome of looking up the seed, from the keychain's status code.
pub open spec fn retrieve_outcome(status: i32) -> Result<(), ErrorView> {
    if status == ERR_SEC_SUCCESS {
        Ok(())
    } else if status == ERR_SEC_ITEM_NOT_FOUND {
        Err(ErrorView::Keychain("No keychain entry found. Vault may need to be re-initialized."@))
    } else if status == ERR_SEC_AUTH_FAILED || status == ERR_SEC_USER_CANCELED {
        Err(ErrorView::AuthFailed)
    } else {
        Err(ErrorView::Keychain(
            "Failed to retrieve key from keychain (error "@ + signed_decimal(status as int) + ")"@,
        ))
    }
}

fn status_message(prefix: &str, status: i32) -> (s: String)
    ensures
        s@ == prefix@ + signed_decimal(status as int) + ")"@,
{
    let mut s = String::new();
    push_str(&mut s, prefix);
    push_signed_decimal(&mut s, status as i64);
    push_str(&mut s, ")");
    assert(s@ =~= prefix@ + signed_decimal(status as int) + ")"@);
    s
}

/// Interprets the status of a keychain lookup of the seed.
pub fn retrieve_status(status: i32) -> (r: Result<(), EnvzError>)
    ensures
        match retrieve_outcome(status) {
            Ok(_) => r is Ok,
            Err(e) => r matches Err(x) && x@ == e,
        },
{
    if status == ERR_SEC_SUCCESS {
        Ok(())
    } else if status == ERR_SEC_ITEM_NOT_FOUND {
        Err(EnvzError::Keychain(owned("No keychain entry found. Vault may need to be re-initialized.")))
    } else if status == ERR_SEC_AUTH_FAILED || status == ERR_SEC_USER_CANCELED {
        Err(EnvzError::AuthFailed)
    } else {
        Err(EnvzError::Keychain(status_message("Failed to retrieve key from keychain (error ", status)))
    }
}

/// Interprets the status of storing the seed in the keychain.
pub fn store_status(status: i32) -> (r: Result<(), EnvzError>)
    ensures
        status == ERR_SEC_SUCCESS ==> r is Ok,
        status != ERR_SEC_SUCCESS ==> (r matches Err(e) && e@ == ErrorView::Keychain(
            "Failed to store key in keychain (error "@ + signed_decimal(status as int) + ")"@,
        )),
{
    if status != ERR_SEC_SUCCESS {
        return Err(EnvzError::Keychain(status_message("Failed to store key in keychain (error ", status)));
    }
    Ok(())
}

/// Interprets the status of deleting the seed; a missing entry is no error.
pub fn delete_status(status: i32) -> (r: Result<(), EnvzError>)
    ensures
        (status == ERR_SEC_SUCCESS || status == ERR_SEC_ITEM_NOT_FOUND) ==> r is Ok,
        (status != ERR_SEC_SUCCESS && status != ERR_SEC_ITEM_NOT_FOUND) ==> (r matches Err(e)
            && e@ == ErrorView::Keychain(
            "Failed to delete keychain entry (error "@ + signed_decimal(status as int) + ")"@,
        )),
{
    if status != ERR_SEC_SUCCESS && status != ERR_SEC_ITEM_NOT_FOUND {
        return Err(EnvzError::Keychain(status_message("Failed to delete keychain entry (error ", status)));
    }
    Ok(())
}

/// The outcome of asking for Touch ID: `None` when the LocalAuthentication
/// framework is missing, otherwise whether the user was recognized.
pub fn auth_outcome(granted: Option<bool>) -> (r: Result<(), EnvzError>)
    ensures
        granted == Some(true) ==> r is Ok,
        granted == Some(false) ==> (r matches Err(e) && e@ == ErrorView::AuthFailed),
        granted is None ==> (r matches Err(e) && e@ == ErrorView::Keychain(
            "LocalAuthentication framework not available"@,
        )),
{
    match granted {
        None => Err(EnvzError::Keychain(owned("LocalAuthentication framework not available"))),
        Some(true) => Ok(()),
        Some(false) => Err(EnvzError::AuthFailed),
    }
}

} // verus!
