//! The server's configuration, its defaults, and the checks it must pass.
use vstd::prelude::*;
use crate::text::{blank, is_blank};

verus! {

/// Everything the server is configured with.
pub struct ServerConfig {
    pub server_name: String,
    pub network: NetworkConfig,
    pub tls: TlsConfig,
    pub media: MediaConfig,
    pub security: SecurityConfig,
}

/// Where the server listens.
pub struct NetworkConfig {
    pub bind_address: String,
    pub quic_port: u16,
}

/// Where the server's certificate and key are kept.
pub struct TlsConfig {
    pub certificate: String,
    pub private_key: String,
}

/// Limits on the video the server carries.
pub struct MediaConfig {
    pub max_width: u32,
    pub max_height: u32,
    pub max_fps: u32,
    pub max_streams: usize,
}

/// Whether and how clients must authenticate.
pub struct SecurityConfig {
    pub require_authentication: bool,
    pub password: String,
}

/// Why a server configuration was refused.
#[derive(Debug, Clone, Copy, PartialEq, Eq, Structural)]
pub enum ServerConfigError {
    /// The server name is blank.
    MissingServerName,
    /// The QUIC port is zero.
    InvalidQuicPort,
    /// The certificate path is empty.
    MissingCertificatePath,
    /// The private key path is empty.
    MissingPrivateKeyPath,
}

/// The first check a server configuration fails, in the order they are
/// made, if any.
pub open spec fn server_config_error(c: ServerConfig) -> Option<ServerConfigError> {
    if blank(c.server_name@) {
        Some(ServerConfigError::MissingServerName)
    } else if c.network.quic_port == 0 {
        Some(ServerConfigError::InvalidQuicPort)
    } else if c.tls.certificate@.len() == 0 {
        Some(ServerConfigError::MissingCertificatePath)
    } else if c.tls.private_key@.len() == 0 {
        Some(ServerConfigError::MissingPrivateKeyPath)
    } else {
        None
    }
}

impl Default for ServerConfig {
    /// A server named `localhost` listening on all interfaces at port 5001,
    /// with its certificate and key under `certs/`, carrying at most 10
    /// streams of 1920 by 1080 at 60 frames a second, and requiring the
    /// password `password`.
    fn default() -> (c: Self)
        ensures
            c.server_name@ == "localhost"@,
            c.network.bind_address@ == "0.0.0.0"@,
            c.network.quic_port == 5001,
            c.tls.certificate@ == "certs/server_cert.der"@,
            c.tls.private_key@ == "certs/server_key.der"@,
            c.media.max_width == 1920,
            c.media.max_height == 1080,
            c.media.max_fps == 60,
            c.media.max_streams == 10,
            c.security.require_authentication,
            c.security.password@ == "password"@,
    {
        ServerConfig {
            server_name: String::from_str("localhost"),
            network: NetworkConfig { bind_address: String::from_str("0.0.0.0"), quic_port: 5001 },
            tls: TlsConfig {
                certificate: String::from_str("certs/server_cert.der"),
                private_key: String::from_str("certs/server_key.der"),
            },
            media: MediaConfig { max_width: 1920, max_height: 1080, max_fps: 60, max_streams: 10 },
            security: SecurityConfig {
                require_authentication: true,
                password: String::from_str("password"),
            },
        }
    }
}

impl ServerConfig {
    /// Checks a configuration before the server starts: it must have a
    /// name, a QUIC port other than zero, and both certificate paths.
    pub fn validate(&self) -> (res: Result<(), ServerConfigError>)
        ensures
            match server_config_error(*self) {
                Some(e) => res == Err::<(), ServerConfigError>(e),
                None => res is Ok,
            },
    {
        if is_blank(self.server_name.as_str()) {
            return Err(ServerConfigError::MissingServerName);
        }
        if self.network.quic_port == 0 {
            return Err(ServerConfigError::InvalidQuicPort);
        }
        if self.tls.certificate.as_str().is_empty() {
            return Err(ServerConfigError::MissingCertificatePath);
        }
        if self.tls.private_key.as_str().is_empty() {
            return Err(ServerConfigError::MissingPrivateKeyPath);
        }
        Ok(())
    }
}

/// The default configuration passes the checks: a configuration with the
/// default name, port and certificate paths is accepted.
pub proof fn default_config_is_valid(c: ServerConfig)
    requires
        c.server_name@ == "localhost"@,
        c.network.quic_port == 5001,
        c.tls.certificate@ == "certs/server_cert.der"@,
        c.tls.private_key@ == "certs/server_key.der"@,
    ensures
        server_config_error(c) is None,
{
    reveal_strlit("localhost");
    reveal_strlit("certs/server_cert.der");
    reveal_strlit("certs/server_key.der");
    assert(!crate::text::white_space(c.server_name@[0]));
}

} // verus!
