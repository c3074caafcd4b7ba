//! The client's configuration and the checks it must pass before a
//! connection is tried.
use vstd::prelude::*;
use crate::network::fingerprint::{
    cuts_inside_char, digits_error, fingerprint_digits, parse_sha256_fingerprint, FingerprintError,
};
use crate::text::{blank, is_blank, same_text};

verus! {

/// Where and as whom the client connects, and which server certificate it
/// trusts.
pub struct ClientConfig {
    pub username: String,
    pub server_name: String,
    pub server_address: String,
    pub server_password: String,
    pub fingerprint: String,
}

/// Why a client configuration was refused.
#[derive(Debug, Clone, Copy, PartialEq, Eq, Structural)]
pub enum ClientConfigError {
    /// The username is blank or still the template's placeholder.
    UsernameNotConfigured,
    /// The server name is blank.
    MissingServerName,
    /// The server address is blank.
    MissingServerAddress,
    /// The server password is blank.
    MissingServerPassword,
    /// The trusted fingerprint is blank.
    MissingFingerprint,
    /// The trusted fingerprint is not a SHA-256 fingerprint.
    InvalidFingerprint(FingerprintError),
}

/// The placeholder username of a configuration template.
pub open spec fn placeholder_username() -> Seq<char> {
    "your_username"@
}

/// The first of the presence checks that a configuration fails, in the
/// order they are made.
pub open spec fn missing_field(c: ClientConfig) -> Option<ClientConfigError> {
    if blank(c.username@) || c.username@ == placeholder_username() {
        Some(ClientConfigError::UsernameNotConfigured)
    } else if blank(c.server_name@) {
        Some(ClientConfigError::MissingServerName)
    } else if blank(c.server_address@) {
        Some(ClientConfigError::MissingServerAddress)
    } else if blank(c.server_password@) {
        Some(ClientConfigError::MissingServerPassword)
    } else if blank(c.fingerprint@) {
        Some(ClientConfigError::MissingFingerprint)
    } else {
        None
    }
}

/// Why a configuration is refused, if it is: a missing field, or else a
/// fingerprint that does not read as one.
pub open spec fn client_config_error(c: ClientConfig) -> Option<ClientConfigError> {
    match missing_field(c) {
        Some(e) => Some(e),
        None => match digits_error(fingerprint_digits(c.fingerprint@, true)) {
            Some(e) => Some(ClientConfigError::InvalidFingerprint(e)),
            None => None,
        },
    }
}

impl ClientConfig {
    /// Checks a configuration before it is used: every field must be filled
    /// in (the username with something other than the placeholder), and the
    /// fingerprint must read as a SHA-256 fingerprint.
    pub fn validate(&self) -> (res: Result<(), ClientConfigError>)
        requires
            missing_field(*self) is None ==> !cuts_inside_char(
                fingerprint_digits(self.fingerprint@, true),
            ),
        ensures
            match client_config_error(*self) {
                Some(e) => res == Err::<(), ClientConfigError>(e),
                None => res is Ok,
            },
    {
        if let Some(e) = self.check_fields() {
            return Err(e);
        }
        match parse_sha256_fingerprint(self.fingerprint.as_str()) {
            Ok(_) => Ok(()),
            Err(e) => Err(ClientConfigError::InvalidFingerprint(e)),
        }
    }

    /// The first presence check the configuration fails, if any: a blank
    /// or placeholder username, then a blank server name, server address,
    /// password or fingerprint.
    pub fn check_fields(&self) -> (missing: Option<ClientConfigError>)
        ensures
            missing == missing_field(*self),
    {
        if is_blank(self.username.as_str()) || same_text(self.username.as_str(), "your_username") {
            return Some(ClientConfigError::UsernameNotConfigured);
        }
        if is_blank(self.server_name.as_str()) {
            return Some(ClientConfigError::MissingServerName);
        }
        if is_blank(self.server_address.as_str()) {
            return Some(ClientConfigError::MissingServerAddress);
        }
        if is_blank(self.server_password.as_str()) {
            return Some(ClientConfigError::MissingServerPassword);
        }
        if is_blank(self.fingerprint.as_str()) {
            return Some(ClientConfigError::MissingFingerprint);
        }
        None
    }
}

} // verus!
