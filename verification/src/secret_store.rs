//! Credentials, where there is no keyring to keep them in: every call succeeds
//! and stores nothing, so that the account form behaves as if the keychain had
//! taken them.
use vstd::prelude::*;

use crate::error::Error;

verus! {

/// Accept a key pair, storing nothing.
pub fn store_account_secrets(
    _account_id: &str,
    _access_key_id: &str,
    _secret_access_key: &str,
) -> (res: Result<(), Error>)
    ensures
        res is Ok,
{
    Ok(())
}

/// Read an account's key pair: none was ever stored.
pub fn get_account_secrets(_account_id: &str) -> (res: Result<Option<(String, String)>, Error>)
    ensures
        res == Ok::<Option<(String, String)>, Error>(None),
{
    Ok(None)
}

/// Forget an account's key pair. There is none.
pub fn delete_account_secrets(_account_id: &str) -> (res: Result<(), Error>)
    ensures
        res is Ok,
{
    Ok(())
}

} // verus!
