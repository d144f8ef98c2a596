use vstd::prelude::*;

use crate::error::FsError;

verus! {

/// Length in bytes of the salt drawn when a data directory is initialised.
pub const SALT_LEN: usize = 16;

/// How long, in seconds, the master key and the caches stay alive unused.
pub const IDLE_TTL_SECS: u64 = 600;

/// Whether a value unused for `idle_secs` seconds may still be used, or
/// must be produced again.
pub fn still_fresh(idle_secs: u64) -> (r: bool)
    ensures
        r == (idle_secs < IDLE_TTL_SECS),
{
    idle_secs < IDLE_TTL_SECS
}

/// What opening the key material has to do.
#[derive(Clone, Copy, Debug, PartialEq, Eq, Structural)]
pub struct KeySetupPlan {
    /// Draw `SALT_LEN` random bytes and write them as the salt, instead of
    /// loading the stored salt.
    pub new_salt: bool,
    /// Draw a random master key and store it encrypted, instead of
    /// decrypting the stored one.
    pub new_key: bool,
}

/// The plan for reading or creating the master key, given which of the
/// salt and key files exist.
pub fn plan_key_setup(salt_exists: bool, key_exists: bool) -> (r: KeySetupPlan)
    ensures
        r.new_salt == !salt_exists,
        r.new_key == !key_exists,
{
    KeySetupPlan { new_salt: !salt_exists, new_key: !key_exists }
}

/// The passphrase a provider yielded; none is an invalid password.
pub fn require_password(password: Option<String>) -> (r: Result<String, FsError>)
    ensures
        password is None ==> r == Err::<String, FsError>(FsError::InvalidPassword),
        password is Some ==> r == Ok::<String, FsError>(password->0),
{
    match password {
        Some(p) => Ok(p),
        None => Err(FsError::InvalidPassword),
    }
}

/// The master key read back from storage: a stored key that could not be
/// decrypted or decoded means the passphrase was wrong.
pub fn key_or_invalid_password<E>(decoded: Result<Vec<u8>, E>) -> (r: Result<Vec<u8>, FsError>)
    ensures
        decoded is Err ==> r == Err::<Vec<u8>, FsError>(FsError::InvalidPassword),
        decoded is Ok ==> r == Ok::<Vec<u8>, FsError>(decoded->Ok_0),
{
    match decoded {
        Ok(k) => Ok(k),
        Err(_) => Err(FsError::InvalidPassword),
    }
}

} // verus!
