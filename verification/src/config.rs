//! The core server's configuration record.  Reading and parsing the on-disk
//! key=value file is conventional plumbing done outside; the record and the
//! completeness rule live here.

use vstd::prelude::*;

use crate::error::RqError;

verus! {

/// Credentials and secrets the web front-end needs.
#[derive(Debug, Clone)]
pub struct RqCoreConfig {
    pub google_client_id: String,
    pub google_client_secret: String,
    pub api_secret_code: String,
}

impl RqCoreConfig {
    /// A configuration from its three values.  Every value must be
    /// non-empty; a missing one is a configuration error naming it.
    pub fn new(
        google_client_id: String,
        google_client_secret: String,
        api_secret_code: String,
    ) -> (r: Result<RqCoreConfig, RqError>)
        ensures
            google_client_id@.len() > 0 && google_client_secret@.len() > 0
                && api_secret_code@.len() > 0 ==> (r matches Ok(c)
                && c.google_client_id@ == google_client_id@ && c.google_client_secret@
                == google_client_secret@ && c.api_secret_code@ == api_secret_code@),
            google_client_id@.len() == 0 || google_client_secret@.len() == 0
                || api_secret_code@.len() == 0 ==> r is Err,
    {
        if google_client_id.as_str().is_empty() {
            return Err(RqError::Config(String::from_str("missing 'google_client_id'")));
        }
        if google_client_secret.as_str().is_empty() {
            return Err(RqError::Config(String::from_str("missing 'google_client_secret'")));
        }
        if api_secret_code.as_str().is_empty() {
            return Err(RqError::Config(String::from_str("missing 'api_secret_code'")));
        }
        Ok(RqCoreConfig { google_client_id, google_client_secret, api_secret_code })
    }
}

} // verus!
