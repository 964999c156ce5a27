//! The application configuration: global settings and the list of hosts.
use vstd::prelude::*;
use crate::host::{socket_path, socket_path_of, ConnectionType, HostConfig, TlsConfig};

verus! {

/// Settings read from `~/.config/container-viz/config.toml`.
#[derive(Debug)]
pub struct AppConfig {
    pub safe_mode: bool,
    /// Milliseconds between ticks.
    pub tick_rate: u64,
    pub log_tail_lines: u64,
    pub hosts: Vec<HostConfig>,
}

/// Safe mode is on unless the configuration says otherwise.
pub fn default_safe_mode() -> (b: bool)
    ensures
        b,
{
    true
}

/// One tick per second.
pub fn default_tick_rate() -> (ms: u64)
    ensures
        ms == 1000,
{
    1000
}

/// Lines of history fetched when tailing a container's logs.
pub fn default_log_tail_lines() -> (n: u64)
    ensures
        n == 100,
{
    100
}

impl Default for AppConfig {
    fn default() -> (c: Self)
        ensures
            c.safe_mode,
            c.tick_rate == 1000,
            c.log_tail_lines == 100,
            c.hosts@.len() == 0,
    {
        AppConfig {
            safe_mode: default_safe_mode(),
            tick_rate: default_tick_rate(),
            log_tail_lines: default_log_tail_lines(),
            hosts: Vec::new(),
        }
    }
}

/// The hosts of `hs` not called `name`, in order.
pub open spec fn without_name(hs: Seq<HostConfig>, name: Seq<char>) -> Seq<HostConfig> {
    hs.filter(|h: HostConfig| h.name@ != name)
}

impl AppConfig {
    /// Appends a host to the list.
    pub fn add_host(&mut self, host: HostConfig)
        ensures
            final(self).hosts@ == old(self).hosts@.push(host),
            final(self).safe_mode == old(self).safe_mode,
            final(self).tick_rate == old(self).tick_rate,
            final(self).log_tail_lines == old(self).log_tail_lines,
    {
        self.hosts.push(host);
    }

    /// Removes every host called `name`; returns whether there was one.
    pub fn remove_host(&mut self, name: &str) -> (found: bool)
        ensures
            final(self).hosts@ == without_name(old(self).hosts@, name@),
            found == exists|i: int| 0 <= i < old(self).hosts@.len() && (#[trigger] old(self).hosts@[i]).name@ == name@,
            found == (final(self).hosts@.len() < old(self).hosts@.len()),
            final(self).safe_mode == old(self).safe_mode,
            final(self).tick_rate == old(self).tick_rate,
            final(self).log_tail_lines == old(self).log_tail_lines,
    {
        let ghost hs = self.hosts@;
        let mut kept: Vec<HostConfig> = Vec::new();
        let mut i: usize = 0;
        let mut found = false;
        while i < self.hosts.len()
            invariant
                i <= hs.len(),
                self.hosts@ == hs,
                kept@ == without_name(hs.take(i as int), name@),
                kept@.len() <= i,
                found == exists|j: int| 0 <= j < i && (#[trigger] hs[j]).name@ == name@,
                found == (kept@.len() < i),
            decreases hs.len() - i,
        {
            proof {
                let t0 = hs.take(i as int);
                assert(hs.take(i as int + 1) =~= t0.push(hs[i as int]));
                t0.lemma_filter_push(hs[i as int], |h: HostConfig| h.name@ != name@);
            }
            if crate::text::str_eq(self.hosts[i].name.as_str(), name) {
                found = true;
            } else {
                kept.push(self.hosts[i].clone());
            }
            i = i + 1;
        }
        assert(hs.take(i as int) =~= hs);
        self.hosts = kept;
        found
    }
}


/// Docker's port for plain TCP.
pub const DOCKER_PORT: u16 = 2375;
/// Docker's port for TCP with TLS.
pub const DOCKER_TLS_PORT: u16 = 2376;

/// Why a `[[hosts]]` entry of the configuration file is refused.
#[derive(Debug, PartialEq, Eq, Structural)]
pub enum HostEntryError {
    /// `connection = "tcp"` without a `host`.
    MissingHost,
    /// `tls = true` without a `cert_path`.
    MissingCertPath,
    /// A `connection` other than `"unix"` or `"tcp"`.
    UnknownConnection,
}

/// Whether a `[[hosts]]` entry is accepted, and why not: `connection`
/// must be absent, `"unix"` or `"tcp"`; a TCP entry needs a `host`, and
/// with `tls` also a `cert_path`.
pub open spec fn spec_host_entry(
    name: String,
    socket: Option<String>,
    connection: Option<String>,
    host: Option<String>,
    port: Option<u16>,
    tls: bool,
    cert_path: Option<String>,
    ca_cert: Option<String>,
    verify: bool,
) -> Result<(), HostEntryError> {
    let is_tcp = connection matches Some(c) && c@ == "tcp"@;
    let is_unix = connection is None || (connection matches Some(c) && c@ == "unix"@);
    if !is_tcp && !is_unix {
        Err(HostEntryError::UnknownConnection)
    } else if is_tcp && host is None {
        Err(HostEntryError::MissingHost)
    } else if is_tcp && tls && cert_path is None {
        Err(HostEntryError::MissingCertPath)
    } else {
        Ok(())
    }
}

/// `h` is the host an accepted `[[hosts]]` entry describes. Without
/// `connection` (or with `"unix"`) it is the Unix socket named by `socket`,
/// else the local default socket. With `"tcp"` it is `host` on `port`,
/// which defaults to Docker's port (2376 with TLS, 2375 without), with TLS
/// material from `cert_path` and `ca_cert` when `tls` is set.
pub open spec fn host_of_entry(
    name: String,
    socket: Option<String>,
    connection: Option<String>,
    host: Option<String>,
    port: Option<u16>,
    tls: bool,
    cert_path: Option<String>,
    ca_cert: Option<String>,
    verify: bool,
    h: HostConfig,
) -> bool {
    let is_tcp = connection matches Some(c) && c@ == "tcp"@;
    &&& h.name == name
    &&& !is_tcp ==> (h.connection matches ConnectionType::UnixSocket(p) && p@ == match socket {
        Some(uri) => socket_path_of(uri@),
        None => "/var/run/docker.sock"@,
    })
    &&& is_tcp ==> match h.connection {
        ConnectionType::Tcp { host: hh, port: pp, tls: t } => {
            &&& host == Some(hh)
            &&& pp == match port {
                Some(p) => p,
                None => if tls { DOCKER_TLS_PORT } else { DOCKER_PORT },
            }
            &&& tls ==> (t matches Some(tc) && cert_path == Some(tc.cert_path) && tc.ca_cert == ca_cert
                && tc.verify == verify)
            &&& !tls ==> t is None
        },
        _ => false,
    }
}

/// Reads a `[[hosts]]` entry of the configuration file (see
/// `host_of_entry`); refuses an unknown connection kind, a TCP host without
/// an address, and TLS without a certificate directory.
pub fn host_from_entry(
    name: String,
    socket: Option<String>,
    connection: Option<String>,
    host: Option<String>,
    port: Option<u16>,
    tls: bool,
    cert_path: Option<String>,
    ca_cert: Option<String>,
    verify: bool,
) -> (r: Result<HostConfig, HostEntryError>)
    ensures
        match r {
            Ok(h) => spec_host_entry(name, socket, connection, host, port, tls, cert_path, ca_cert, verify)
                is Ok && host_of_entry(name, socket, connection, host, port, tls, cert_path, ca_cert, verify, h),
            Err(e) => spec_host_entry(name, socket, connection, host, port, tls, cert_path, ca_cert, verify)
                == Err::<(), HostEntryError>(e),
        },
{
    proof {
        reveal_strlit("tcp");
        reveal_strlit("unix");
    }
    let is_tcp = match &connection {
        Some(c) => crate::text::str_eq(c.as_str(), "tcp"),
        None => false,
    };
    let is_unix = match &connection {
        Some(c) => crate::text::str_eq(c.as_str(), "unix"),
        None => true,
    };
    if !is_tcp && !is_unix {
        return Err(HostEntryError::UnknownConnection);
    }
    if !is_tcp {
        let path = match &socket {
            Some(uri) => socket_path(uri.as_str()),
            None => String::from_str("/var/run/docker.sock"),
        };
        proof {
            reveal_strlit("/var/run/docker.sock");
        }
        return Ok(HostConfig { name, connection: ConnectionType::UnixSocket(path) });
    }
    let addr = match host {
        Some(a) => a,
        None => {
            return Err(HostEntryError::MissingHost);
        },
    };
    let port = match port {
        Some(p) => p,
        None => if tls { DOCKER_TLS_PORT } else { DOCKER_PORT },
    };
    let tls_config = if tls {
        match cert_path {
            Some(dir) => Some(TlsConfig { cert_path: dir, ca_cert, verify }),
            None => {
                return Err(HostEntryError::MissingCertPath);
            },
        }
    } else {
        None
    };
    Ok(HostConfig { name, connection: ConnectionType::Tcp { host: addr, port, tls: tls_config } })
}

} // verus!
