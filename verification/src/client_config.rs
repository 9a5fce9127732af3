//! The client's settings, as far as they decide which host it talks to.

use vstd::prelude::*;
use vstd::string::*;

verus! {

/// Port that the client connects to if the URL names none.
pub const DEFAULT_PORT: u16 = 4433;

/// The settings that the client was started with. The URL is held by its
/// host and port.
#[derive(Debug)]
pub struct AppConfig {
    /// Host part of the server's URL; an IPv6 address stands in brackets.
    pub url_host: String,
    /// Port part of the server's URL, if it has one.
    pub url_port: Option<u16>,
    /// Override hostname used for certificate verification.
    pub host: Option<String>,
    /// Certificate path.
    pub cert_path: Option<String>,
    /// Address to bind on.
    pub bind: String,
}

/// A host without the brackets that a URL puts round an IPv6 address; any
/// other host as it is.
pub open spec fn without_brackets(host: Seq<char>) -> Seq<char> {
    if host.len() >= 2 && host[0] == '[' && host[host.len() - 1] == ']' {
        host.subrange(1, host.len() - 1)
    } else {
        host
    }
}

/// Strips the brackets that a URL puts round an IPv6 address: the host of
/// `https://[::1]:4433/` is `[::1]`, the address is `::1`.
pub fn strip_ipv6_brackets(host: &str) -> (stripped: &str)
    ensures
        stripped@ == without_brackets(host@),
{
    let n = host.unicode_len();
    if n >= 2 && host.get_char(0) == '[' && host.get_char(n - 1) == ']' {
        host.substring_char(1, n - 1)
    } else {
        host
    }
}

impl AppConfig {
    /// The host name to verify the server's certificate against: the
    /// override if there is one, else the URL's host without brackets.
    pub fn get_host(&self) -> (host: String)
        ensures
            host@ == (match self.host {
                Some(h) => h@,
                None => without_brackets(self.url_host@),
            }),
    {
        match &self.host {
            Some(h) => h.clone(),
            None => strip_ipv6_brackets(self.url_host.as_str()).to_owned(),
        }
    }

    /// The host to resolve: the URL's host without brackets.
    pub fn get_remote_host(&self) -> (host: String)
        ensures
            host@ == without_brackets(self.url_host@),
    {
        strip_ipv6_brackets(self.url_host.as_str()).to_owned()
    }

    /// The port to connect to: the URL's, or 4433.
    pub fn get_remote_port(&self) -> (port: u16)
        ensures
            port == (match self.url_port {
                Some(p) => p,
                None => 4433u16,
            }),
    {
        match self.url_port {
            Some(p) => p,
            None => DEFAULT_PORT,
        }
    }
}

} // verus!
