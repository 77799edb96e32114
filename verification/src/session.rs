//! The transport session an authenticated device owns: an HTTPS client
//! restricted to TLS, accepting the self-signed certificates the bridges
//! present. The crate treats it as an opaque request executor; the caller
//! performs the exchanges with it.

use crate::error::Error;
use vstd::prelude::*;

verus! {

/// Declares `reqwest::Client`, the outside HTTP client a session holds;
/// the crate carries it opaquely and never reads into it.
#[verifier::external_type_specification]
#[verifier::external_body]
pub struct ExClient(reqwest::Client);

/// A transport session scoped to one device.
#[derive(Debug)]
pub struct Session {
    client: reqwest::Client,
}

impl Session {
    /// Builds the transport session. Whether the TLS backend can be set up
    /// is the transport's own affair; on failure the error carries its
    /// message.
    pub fn new() -> (r: Result<Session, Error>)
        ensures
            r matches Err(e) ==> e matches Error::Reqwest(_),
    {
        match build_client() {
            Ok(c) => Ok(Session { client: c }),
            Err(m) => Err(Error::Reqwest(m)),
        }
    }

    /// The underlying HTTP client, for the caller that performs the
    /// exchanges.
    pub fn client(&self) -> &reqwest::Client {
        &self.client
    }
}

/// Relies on `reqwest::ClientBuilder`: `https_only(true)` restricts the
/// client to HTTPS, `danger_accept_invalid_certs(true)` accepts self-signed
/// certificates, and `build` returns the client or a setup error.
#[verifier::external_body]
fn build_client() -> (r: Result<reqwest::Client, String>) {
    match reqwest::Client::builder().https_only(true).danger_accept_invalid_certs(true).build() {
        Ok(c) => Ok(c),
        Err(e) => Err(format!("{e}")),
    }
}

} // verus!
