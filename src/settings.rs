//! The server's configuration, as the session engine reads it.
use vstd::prelude::*;

verus! {

/// The IP version that the server listens on.
#[derive(Debug, Clone, Copy, PartialEq, Eq, Structural)]
pub enum Protocol {
    V4,
    V6,
}

/// The configuration: where to listen, the domain named in greetings, and
/// the shared secret that authentication checks.
#[derive(Debug, Clone)]
pub struct Settings {
    pub port: u16,
    pub protocol: u8,
    pub domain: String,
    pub password: String,
}

impl Settings {
    /// The settings used when no file is given.
    pub fn default() -> (r: Settings)
        ensures
            r.port == 2525,
            r.protocol == 4,
            r.domain@ == "groove.com"@,
            r.password@ == "password"@,
    {
        Settings {
            port: 2525,
            protocol: 4,
            domain: "groove.com".to_owned(),
            password: "password".to_owned(),
        }
    }
}

impl Protocol {
    /// The protocol that a settings file names by its IP version number:
    /// 4 or 6, and no other.
    pub fn from_version(version: u8) -> (r: Option<Protocol>)
        ensures
            version == 4 ==> r == Some(Protocol::V4),
            version == 6 ==> r == Some(Protocol::V6),
            version != 4 && version != 6 ==> r is None,
    {
        match version {
            4 => Some(Protocol::V4),
            6 => Some(Protocol::V6),
            _ => None,
        }
    }
}

} // verus!
