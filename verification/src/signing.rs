//! What can go wrong when a request to the catalog is signed.

use vstd::prelude::*;

verus! {

/// Why a request could not be signed. Each failure carries a message for the
/// operator.
#[derive(Debug)]
pub enum SigningError {
    RequestBuildingError(String),
    CredentialsError(String),
    SettingsError(String),
    SigningError(String),
}

} // verus!
