//! Trust in the server's certificate: fingerprints, their text form, and the
//! comparison a client makes during the handshake.
pub mod fingerprint;
pub mod stream;
