//! Configuration of the proxy: the services it offers, how it accepts clients and how it
//! reaches servers.

use crate::decimal::{decimal, decimal_string};
use vstd::prelude::*;

verus! {

/// Port of IMAP without TLS.
pub fn default_imap_port() -> (res: u16)
    ensures
        res == 143,
{
    143
}

/// Port of IMAP over TLS.
pub fn default_imaps_port() -> (res: u16)
    ensures
        res == 993,
{
    993
}

#[derive(Clone, Debug, Eq, PartialEq)]
pub struct Config {
    pub services: Vec<Service>,
}

#[derive(Clone, Debug, Eq, PartialEq)]
pub struct Service {
    /// Name of service, e.g., "Best Email Provider".
    pub name: String,
    /// How to accept client connections?
    pub bind: Bind,
    /// How to establish server connections?
    pub connect: Connect,
}

/// How to accept client connections?
#[derive(Clone, Debug, Eq, PartialEq)]
pub enum Bind {
    /// Accept non-encrypted connections from client (insecure).
    Insecure {
        /// Host.
        host: String,
        /// Port.
        port: u16,
    },
    /// Accept TLS-encrypted connections from client.
    Tls {
        /// Host.
        host: String,
        /// Port.
        port: u16,
        /// Cryptographic objects required to accept a TLS connection.
        identity: Identity,
    },
}

#[derive(Clone, Debug, Eq, PartialEq)]
pub enum Identity {
    /// Certificate chain and leaf key.
    CertificateChainAndLeafKey {
        /// Path to certificate chain (in PEM format).
        certificate_chain_path: String,
        /// Path to leaf key (in PEM format).
        leaf_key_path: String,
    },
}

/// How to establish server connections?
#[derive(Clone, Debug, Eq, PartialEq)]
pub enum Connect {
    /// Establish non-encrypted connection to server (insecure).
    Insecure {
        /// Host.
        host: String,
        /// Port.
        port: u16,
    },
    /// Establish TLS-encrypted connection to server.
    Tls {
        /// Host.
        host: String,
        /// Port.
        port: u16,
    },
}

/// `host:port`.
pub open spec fn addr_port_text(host: Seq<char>, port: u16) -> Seq<char> {
    host + seq![':'] + decimal(port as nat)
}

/// `scheme://host:port (note)`.
pub open spec fn url_text(scheme: Seq<char>, host: Seq<char>, port: u16, note: Seq<char>) -> Seq<
    char,
> {
    scheme + seq![':', '/', '/'] + addr_port_text(host, port) + seq![' ', '('] + note + seq![')']
}

/// `host` followed by `:` and the decimal port.
fn addr_port_string(host: &String, port: u16) -> (res: String)
    ensures
        res@ == addr_port_text(host@, port),
{
    let mut res = host.clone();
    res.append(":");
    let digits = decimal_string(port as u64);
    res.append(digits.as_str());
    proof {
        reveal_strlit(":");
        assert(res@ =~= addr_port_text(host@, port));
    }
    res
}

impl Bind {
    pub open spec fn host_spec(&self) -> Seq<char> {
        match self {
            Bind::Insecure { host, .. } => host@,
            Bind::Tls { host, .. } => host@,
        }
    }

    pub open spec fn port_spec(&self) -> u16 {
        match self {
            Bind::Insecure { port, .. } => *port,
            Bind::Tls { port, .. } => *port,
        }
    }

    /// Creates a `host:port` `String`.
    pub fn addr_port(&self) -> (res: String)
        ensures
            res@ == addr_port_text(self.host_spec(), self.port_spec()),
    {
        match self {
            Bind::Tls { host, port, .. } => addr_port_string(host, *port),
            Bind::Insecure { host, port } => addr_port_string(host, *port),
        }
    }

    /// Describes the binding for people: `imaps://host:port (TLS)` or
    /// `imap://host:port (insecure)`.
    pub fn display_string(&self) -> (res: String)
        ensures
            res@ == (match self {
                Bind::Tls { host, port, .. } => url_text("imaps"@, host@, *port, "TLS"@),
                Bind::Insecure { host, port } => url_text("imap"@, host@, *port, "insecure"@),
            }),
    {
        match self {
            Bind::Tls { host, port, .. } => url_string("imaps", host, *port, "TLS"),
            Bind::Insecure { host, port } => url_string("imap", host, *port, "insecure"),
        }
    }
}

impl Connect {
    pub open spec fn host_spec(&self) -> Seq<char> {
        match self {
            Connect::Insecure { host, .. } => host@,
            Connect::Tls { host, .. } => host@,
        }
    }

    pub open spec fn port_spec(&self) -> u16 {
        match self {
            Connect::Insecure { port, .. } => *port,
            Connect::Tls { port, .. } => *port,
        }
    }

    /// Creates a `host:port` `String`.
    pub fn addr_port(&self) -> (res: String)
        ensures
            res@ == addr_port_text(self.host_spec(), self.port_spec()),
    {
        match self {
            Connect::Tls { host, port } => addr_port_string(host, *port),
            Connect::Insecure { host, port } => addr_port_string(host, *port),
        }
    }

    /// Describes the connection for people: `imaps://host:port (TLS)` or
    /// `imap://host:port (insecure)`.
    pub fn display_string(&self) -> (res: String)
        ensures
            res@ == (match self {
                Connect::Tls { host, port } => url_text("imaps"@, host@, *port, "TLS"@),
                Connect::Insecure { host, port } => url_text("imap"@, host@, *port, "insecure"@),
            }),
    {
        match self {
            Connect::Tls { host, port } => url_string("imaps", host, *port, "TLS"),
            Connect::Insecure { host, port } => url_string("imap", host, *port, "insecure"),
        }
    }
}

/// `scheme://host:port (note)`.
fn url_string(scheme: &str, host: &String, port: u16, note: &str) -> (res: String)
    ensures
        res@ == url_text(scheme@, host@, port, note@),
{
    let mut res = String::from_str(scheme);
    res.append("://");
    let addr_port = addr_port_string(host, port);
    res.append(addr_port.as_str());
    res.append(" (");
    res.append(note);
    res.append(")");
    proof {
        reveal_strlit("://");
        reveal_strlit(" (");
        reveal_strlit(")");
        assert(res@ =~= url_text(scheme@, host@, port, note@));
    }
    res
}

} // verus!
