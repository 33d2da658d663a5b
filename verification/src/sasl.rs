//! The authentication profiles the connection can be opened with. The
//! hashing itself happens outside the core; the profiles here carry the
//! credentials and the chosen mechanism.

use vstd::prelude::*;

verus! {

/// The hash family a challenge-response profile uses.
#[derive(Clone, Copy, PartialEq, Eq, Structural, Debug)]
pub enum ScramVersion {
    /// The SHA-1 family.
    Sha1,
    /// The SHA-256 family.
    Sha256,
    /// The SHA-512 family.
    Sha512,
}

/// The client side of a challenge-response exchange: the credentials and
/// the mechanism.
#[derive(PartialEq, Eq, Debug)]
pub struct ScramClient {
    /// The name the client authenticates as.
    pub username: String,
    /// The secret the client proves possession of.
    pub password: String,
    /// The hash family of the exchange.
    pub version: ScramVersion,
}

impl ScramClient {
    /// Builds a client from its credentials and mechanism.
    pub fn new(username: String, password: String, version: ScramVersion) -> (r: Self)
        ensures
            r.username@ == username@,
            r.password@ == password@,
            r.version == version,
    {
        ScramClient { username, password, version }
    }
}

/// The profile that authenticates with the SHA-1 family.
#[derive(PartialEq, Eq, Debug)]
pub struct SaslScramSha1 {
    /// The client of the exchange.
    pub client: ScramClient,
}

impl SaslScramSha1 {
    /// Builds the profile from the credentials.
    pub fn new(username: String, password: String) -> (r: Self)
        ensures
            r.client.username@ == username@,
            r.client.password@ == password@,
            r.client.version == ScramVersion::Sha1,
    {
        Self { client: ScramClient::new(username, password, ScramVersion::Sha1) }
    }
}

/// The profile that authenticates with the SHA-256 family.
#[derive(PartialEq, Eq, Debug)]
pub struct SaslScramSha256 {
    /// The client of the exchange.
    pub client: ScramClient,
}

impl SaslScramSha256 {
    /// Builds the profile from the credentials.
    pub fn new(username: String, password: String) -> (r: Self)
        ensures
            r.client.username@ == username@,
            r.client.password@ == password@,
            r.client.version == ScramVersion::Sha256,
    {
        Self { client: ScramClient::new(username, password, ScramVersion::Sha256) }
    }
}

/// The profile that authenticates with the SHA-512 family.
#[derive(PartialEq, Eq, Debug)]
pub struct SaslScramSha512 {
    /// The client of the exchange.
    pub client: ScramClient,
}

impl SaslScramSha512 {
    /// Builds the profile from the credentials.
    pub fn new(username: String, password: String) -> (r: Self)
        ensures
            r.client.username@ == username@,
            r.client.password@ == password@,
            r.client.version == ScramVersion::Sha512,
    {
        Self { client: ScramClient::new(username, password, ScramVersion::Sha512) }
    }
}

/// The profile a connection authenticates with.
#[derive(PartialEq, Eq, Debug)]
pub enum SaslProfile {
    /// No exchange; the name alone.
    Anonymous,
    /// Plain credentials.
    Plain(ScramClient),
    /// Challenge-response with the SHA-1 family.
    ScramSha1(SaslScramSha1),
    /// Challenge-response with the SHA-256 family.
    ScramSha256(SaslScramSha256),
    /// Challenge-response with the SHA-512 family.
    ScramSha512(SaslScramSha512),
}

} // verus!
