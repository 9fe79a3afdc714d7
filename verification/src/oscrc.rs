//! The decision at the heart of reading credentials from an osc
//! configuration: which password source a service record names. Loading the
//! configuration and querying a keyring happen outside; this chooses.

use vstd::prelude::*;
use vstd::string::StringExecFns;

verus! {

/// Where a service record says its password is.
#[derive(Debug)]
pub enum CredentialsPlan {
    /// The record carries the password itself.
    Plain(String),
    /// The password lives in the keyring's secret service; the caller
    /// queries it under the service's user.
    QuerySecretService,
}

/// Why no password source could be chosen.
#[derive(Debug)]
pub enum CredentialsPlanError {
    /// The record names neither a password nor a credentials manager.
    MissingPass,
    /// The record names a credentials manager this store does not know.
    UnknownCredMgr(String),
}

/// The one credentials manager the plan knows: the keyring backed by the
/// secret service.
pub open spec fn spec_secret_service_manager() -> Seq<char> {
    "osc.credentials.KeyringCredentialsManager:keyring.backends.SecretService.Keyring"@
}

/// Chooses a password source for a service record: a password in the record
/// wins; otherwise the record's credentials manager must be the known
/// keyring; a record naming neither is refused.
pub fn plan_credentials(pass: &Option<String>, credentials_mgr_class: &Option<String>) -> (r:
    Result<CredentialsPlan, CredentialsPlanError>)
    ensures
        match *pass {
            Some(p) => (r matches Ok(CredentialsPlan::Plain(x)) && x@ == p@),
            None => match *credentials_mgr_class {
                Some(m) => if m@ == spec_secret_service_manager() {
                    r matches Ok(CredentialsPlan::QuerySecretService)
                } else {
                    (r matches Err(CredentialsPlanError::UnknownCredMgr(x)) && x@ == m@)
                },
                None => r matches Err(CredentialsPlanError::MissingPass),
            },
        },
{
    match pass {
        Some(p) => Ok(CredentialsPlan::Plain(p.clone())),
        None => match credentials_mgr_class {
            Some(m) => {
                let known = String::from_str(
                    "osc.credentials.KeyringCredentialsManager:keyring.backends.SecretService.Keyring",
                );
                if *m == known {
                    Ok(CredentialsPlan::QuerySecretService)
                } else {
                    Err(CredentialsPlanError::UnknownCredMgr(m.clone()))
                }
            },
            None => Err(CredentialsPlanError::MissingPass),
        },
    }
}

} // verus!
