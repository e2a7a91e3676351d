//! The server's configuration as read from its file, and the settings it
//! resolves to once defaults fill what the file leaves out.
use crate::unwrap_or_default;
use vstd::prelude::*;
use vstd::string::StringExecFns;

verus! {

/// The `[general]` section.
#[derive(Debug, Clone)]
pub struct General {
    /// The most sessions at one time; a negative number means no bound.
    pub connections: Option<i64>,
    /// The message of the day sent on a successful login.
    pub motd: Option<String>,
    /// Whether chat lines are echoed to the server's console.
    pub show_msgs_on_server: Option<bool>,
}

/// The `[server]` section.
#[derive(Debug, Clone)]
pub struct Server {
    pub ip: Option<String>,
    pub port: Option<u16>,
}

/// The configuration file.
#[derive(Debug, Clone)]
pub struct Config {
    pub general: Option<General>,
    pub server: Option<Server>,
}

/// Where the server listens.
#[derive(Debug, Clone)]
pub struct ConnectionInfo {
    pub ip: String,
    pub port: u16,
}

/// The settings the server runs with.
#[derive(Debug, Clone)]
pub struct ServerSettings {
    pub conn: ConnectionInfo,
    pub max_connections: Option<usize>,
    pub motd: String,
    pub log_chat: bool,
}

pub const DEFAULT_PORT: u16 = 2277;

pub open spec fn default_ip() -> Seq<char> {
    "0.0.0.0"@
}

pub open spec fn default_motd() -> Seq<char> {
    "Welcome to the Mittere server!"@
}

/// The session bound that a configured number stands for: none for a
/// negative number, else the number, capped at what a `usize` holds.
pub open spec fn connection_limit(n: i64) -> Option<usize> {
    if n < 0 {
        None
    } else if n > usize::MAX {
        Some(usize::MAX)
    } else {
        Some(n as usize)
    }
}

pub fn max_connections_limit(n: i64) -> (r: Option<usize>)
    ensures
        r == connection_limit(n),
{
    if n < 0 {
        None
    } else if n as u64 > usize::MAX as u64 {
        Some(usize::MAX)
    } else {
        Some(n as usize)
    }
}

fn text_or(opt: Option<String>, default: &str) -> (r: String)
    ensures
        r@ == match opt {
            Some(s) => s@,
            None => default@,
        },
{
    match opt {
        Some(s) => s,
        None => String::from_str(default),
    }
}

pub open spec fn configured_ip(c: Config) -> Seq<char> {
    match c.server {
        Some(Server { ip: Some(ip), .. }) => ip@,
        _ => default_ip(),
    }
}

pub open spec fn configured_port(c: Config) -> u16 {
    match c.server {
        Some(Server { port: Some(p), .. }) => p,
        _ => DEFAULT_PORT,
    }
}

pub open spec fn configured_limit(c: Config) -> Option<usize> {
    match c.general {
        Some(General { connections: Some(n), .. }) => connection_limit(n),
        _ => None,
    }
}

pub open spec fn configured_motd(c: Config) -> Seq<char> {
    match c.general {
        Some(General { motd: Some(m), .. }) => m@,
        _ => default_motd(),
    }
}

pub open spec fn configured_log_chat(c: Config) -> bool {
    match c.general {
        Some(General { show_msgs_on_server: Some(b), .. }) => b,
        _ => true,
    }
}

impl Config {
    /// Resolves the file's values: a missing section or key takes its
    /// default (listen on 0.0.0.0, port 2277, no bound on sessions, a
    /// greeting as message of the day, chat echoed to the console).
    pub fn settings(self) -> (r: ServerSettings)
        ensures
            r.conn.ip@ == configured_ip(self),
            r.conn.port == configured_port(self),
            r.max_connections == configured_limit(self),
            r.motd@ == configured_motd(self),
            r.log_chat == configured_log_chat(self),
    {
        proof {
            reveal_strlit("0.0.0.0");
            reveal_strlit("Welcome to the Mittere server!");
        }
        let (connections, motd, show) = match self.general {
            Some(g) => (g.connections, g.motd, g.show_msgs_on_server),
            None => (None, None, None),
        };
        let (ip, port) = match self.server {
            Some(s) => (s.ip, s.port),
            None => (None, None),
        };
        let max_connections = match connections {
            Some(n) => max_connections_limit(n),
            None => None,
        };
        ServerSettings {
            conn: ConnectionInfo {
                ip: text_or(ip, "0.0.0.0"),
                port: unwrap_or_default(port, DEFAULT_PORT),
            },
            max_connections,
            motd: text_or(motd, "Welcome to the Mittere server!"),
            log_chat: unwrap_or_default(show, true),
        }
    }
}

} // verus!
