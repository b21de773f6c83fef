//! TLS configuration checks.  The application tests whether the configured
//! certificate files exist and hands the outcomes over; which missing file
//! fails the configuration, and with which error, is decided here.

use vstd::prelude::*;

verus! {

use crate::config::SslConfig;
use crate::error::RurlError;

/// Certificate-file checks for a TLS configuration.
pub struct SslUtils;

impl SslUtils {
    /// Validates a TLS configuration against the existence of its
    /// configured files: a configured but missing CA certificate, client
    /// certificate or client key fails, in that order.
    pub fn validate_config(
        config: &SslConfig,
        ca_cert_exists: bool,
        client_cert_exists: bool,
        client_key_exists: bool,
    ) -> (r: Result<(), RurlError>)
        ensures
            match r {
                Ok(()) => (config.ca_cert_file is Some ==> ca_cert_exists)
                    && (config.client_cert_file is Some ==> client_cert_exists)
                    && (config.client_key_file is Some ==> client_key_exists),
                Err(e) => e is FileNotFound && ((config.ca_cert_file is Some && !ca_cert_exists)
                    || (config.client_cert_file is Some && !client_cert_exists)
                    || (config.client_key_file is Some && !client_key_exists)),
            },
    {
        if config.ca_cert_file.is_some() && !ca_cert_exists {
            return Err(RurlError::FileNotFound("CA certificate file not found".to_owned()));
        }
        if config.client_cert_file.is_some() && !client_cert_exists {
            return Err(
                RurlError::FileNotFound("Client certificate file not found".to_owned()),
            );
        }
        if config.client_key_file.is_some() && !client_key_exists {
            return Err(RurlError::FileNotFound("Client key file not found".to_owned()));
        }
        Ok(())
    }
}

} // verus!
