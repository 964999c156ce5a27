//! Hosts: how to reach a Docker daemon, its connection status, and the
//! per-host view of its containers with the cursor the user moves.
use vstd::prelude::*;
use crate::colour::Colour;
use crate::container::{ring_push, ContainerInfo, ContainerState, ContainerView, SPARKLINE_LEN};
use crate::compose::{group_by_compose, is_grouping, ComposeGroup};
use crate::text::{decimal, push_decimal};

verus! {

/// Maximum number of log lines kept per container.
pub const LOG_BUFFER_CAPACITY: usize = 1000;

/// TLS material for a TCP connection; `cert_path` is a directory holding
/// `cert.pem` and `key.pem`.
#[derive(Debug)]
pub struct TlsConfig {
    pub cert_path: String,
    pub ca_cert: Option<String>,
    pub verify: bool,
}

/// How to reach a Docker daemon.
#[derive(Debug)]
pub enum ConnectionType {
    UnixSocket(String),
    Tcp { host: String, port: u16, tls: Option<TlsConfig> },
}

/// Connection status of a host as shown in its tab.
#[derive(Debug)]
pub enum HostStatus {
    Connecting,
    Connected,
    Unreachable(String),
}

/// A Docker host entry from the configuration: its name and how to connect.
#[derive(Debug)]
pub struct HostConfig {
    pub name: String,
    pub connection: ConnectionType,
}

fn clone_opt_string(o: &Option<String>) -> (r: Option<String>)
    ensures
        r == *o,
{
    match o {
        Some(s) => Some(s.clone()),
        None => None,
    }
}

impl Clone for TlsConfig {
    fn clone(&self) -> (r: Self)
        ensures
            r == *self,
    {
        TlsConfig {
            cert_path: self.cert_path.clone(),
            ca_cert: clone_opt_string(&self.ca_cert),
            verify: self.verify,
        }
    }
}

impl Default for TlsConfig {
    /// No certificate directory, no CA override, and verification on.
    fn default() -> (r: Self)
        ensures
            r.cert_path@ == Seq::<char>::empty(),
            r.ca_cert is None,
            r.verify,
    {
        TlsConfig { cert_path: String::new(), ca_cert: None, verify: true }
    }
}

impl Clone for ConnectionType {
    fn clone(&self) -> (r: Self)
        ensures
            r == *self,
    {
        match self {
            ConnectionType::UnixSocket(p) => ConnectionType::UnixSocket(p.clone()),
            ConnectionType::Tcp { host, port, tls } => ConnectionType::Tcp {
                host: host.clone(),
                port: *port,
                tls: match tls {
                    Some(t) => Some(t.clone()),
                    None => None,
                },
            },
        }
    }
}

impl Clone for HostStatus {
    fn clone(&self) -> (r: Self)
        ensures
            r == *self,
    {
        match self {
            HostStatus::Connecting => HostStatus::Connecting,
            HostStatus::Connected => HostStatus::Connected,
            HostStatus::Unreachable(m) => HostStatus::Unreachable(m.clone()),
        }
    }
}

impl Clone for HostConfig {
    fn clone(&self) -> (r: Self)
        ensures
            r == *self,
    {
        HostConfig { name: self.name.clone(), connection: self.connection.clone() }
    }
}

impl PartialEq for HostStatus {
    fn eq(&self, other: &Self) -> (r: bool) {
        match (self, other) {
            (HostStatus::Connecting, HostStatus::Connecting) => true,
            (HostStatus::Connected, HostStatus::Connected) => true,
            (HostStatus::Unreachable(a), HostStatus::Unreachable(b)) => crate::text::str_eq(a.as_str(), b.as_str()),
            _ => false,
        }
    }
}

impl vstd::std_specs::cmp::PartialEqSpecImpl for HostStatus {
    open spec fn obeys_eq_spec() -> bool {
        true
    }

    /// Same variant, and the same message for `Unreachable`.
    open spec fn eq_spec(&self, other: &Self) -> bool {
        match (self, other) {
            (HostStatus::Connecting, HostStatus::Connecting) => true,
            (HostStatus::Connected, HostStatus::Connected) => true,
            (HostStatus::Unreachable(a), HostStatus::Unreachable(b)) => a@ == b@,
            _ => false,
        }
    }
}

/// The socket path named by a `unix://` URI (a plain path is taken as is).
pub open spec fn socket_path_of(uri: Seq<char>) -> Seq<char> {
    if uri.len() >= 7 && uri.take(7) == "unix://"@ {
        uri.skip(7)
    } else {
        uri
    }
}

/// Reads the `socket` entry of a host in the configuration file.
pub fn socket_path(uri: &str) -> (p: String)
    ensures
        p@ == socket_path_of(uri@),
{
    let cs = crate::text::chars_of(uri);
    let prefix = crate::text::chars_of("unix://");
    proof {
        reveal_strlit("unix://");
    }
    let mut start: usize = 0;
    if cs.len() >= 7 {
        let mut same = true;
        let mut i: usize = 0;
        while i < 7
            invariant
                i <= 7,
                cs@.len() >= 7,
                prefix@ == "unix://"@,
                prefix@.len() == 7,
                same == (forall|j: int| 0 <= j < i ==> cs@[j] == prefix@[j]),
            decreases 7 - i,
        {
            if cs[i] != prefix[i] {
                same = false;
            }
            i = i + 1;
        }
        if same {
            assert(cs@.take(7) =~= "unix://"@);
            start = 7;
        } else {
            assert(cs@.take(7) != "unix://"@) by {
                let j = choose|j: int| 0 <= j < 7 && cs@[j] != prefix@[j];
                assert(cs@.take(7)[j] != "unix://"@[j]);
            }
        }
    }
    let mut p = String::new();
    let mut k = start;
    while k < cs.len()
        invariant
            start <= k <= cs@.len(),
            p@ == cs@.subrange(start as int, k as int),
        decreases cs@.len() - k,
    {
        p.push(cs[k]);
        k = k + 1;
        assert(p@ =~= cs@.subrange(start as int, k as int));
    }
    assert(cs@.subrange(start as int, cs@.len() as int) =~= socket_path_of(uri@));
    p
}

impl ConnectionType {
    pub open spec fn spec_is_local(&self) -> bool {
        self is UnixSocket
    }

    /// The address string bollard expects: `unix://<path>` or `tcp://<host>:<port>`.
    pub open spec fn spec_addr(&self) -> Seq<char> {
        match self {
            ConnectionType::UnixSocket(path) => "unix://"@ + path@,
            ConnectionType::Tcp { host, port, .. } => "tcp://"@ + host@ + ":"@ + decimal(
                *port as nat,
            ),
        }
    }

    pub fn is_local(&self) -> (b: bool)
        ensures
            b == self.spec_is_local(),
    {
        match self {
            ConnectionType::UnixSocket(_) => true,
            _ => false,
        }
    }

    /// The local daemon socket `/var/run/docker.sock`.
    pub fn default_socket() -> (c: Self)
        ensures
            c matches ConnectionType::UnixSocket(p) && p@ == "/var/run/docker.sock"@,
    {
        ConnectionType::UnixSocket(String::from_str("/var/run/docker.sock"))
    }

    /// Returns the address string bollard expects.
    pub fn bollard_addr(&self) -> (s: String)
        ensures
            s@ == self.spec_addr(),
    {
        match self {
            ConnectionType::UnixSocket(path) => {
                let mut s = String::from_str("unix://");
                s.append(path.as_str());
                s
            },
            ConnectionType::Tcp { host, port, .. } => {
                let mut s = String::from_str("tcp://");
                s.append(host.as_str());
                s.append(":");
                push_decimal(&mut s, *port as u64);
                s
            },
        }
    }
}

impl HostStatus {
    pub open spec fn spec_label(&self) -> Seq<char> {
        match self {
            HostStatus::Connecting => "Connecting"@,
            HostStatus::Connected => "Connected"@,
            HostStatus::Unreachable(_) => "Unreachable"@,
        }
    }

    pub open spec fn spec_colour(&self) -> Colour {
        match self {
            HostStatus::Connecting => Colour::Yellow,
            HostStatus::Connected => Colour::Green,
            HostStatus::Unreachable(_) => Colour::Red,
        }
    }

    pub open spec fn spec_icon(&self) -> Seq<char> {
        match self {
            HostStatus::Connecting => "󰈀"@,
            HostStatus::Connected => "󰡕"@,
            HostStatus::Unreachable(_) => "󰅚"@,
        }
    }

    pub fn label(&self) -> (s: &str)
        ensures
            s@ == self.spec_label(),
    {
        match self {
            HostStatus::Connecting => "Connecting",
            HostStatus::Connected => "Connected",
            HostStatus::Unreachable(_) => "Unreachable",
        }
    }

    pub fn colour(&self) -> (c: Colour)
        ensures
            c == self.spec_colour(),
    {
        match self {
            HostStatus::Connecting => Colour::Yellow,
            HostStatus::Connected => Colour::Green,
            HostStatus::Unreachable(_) => Colour::Red,
        }
    }

    pub fn icon(&self) -> (s: &'static str)
        ensures
            s@ == self.spec_icon(),
    {
        match self {
            HostStatus::Connecting => "󰈀",
            HostStatus::Connected => "󰡕",
            HostStatus::Unreachable(_) => "󰅚",
        }
    }
}

impl HostConfig {
    /// Label for the tab bar: `name (address)`.
    pub open spec fn spec_display_name(&self) -> Seq<char> {
        self.name@ + " ("@ + self.connection.spec_addr() + ")"@
    }

    /// A host entry with the given name and connection (the receiver is not read).
    pub fn new(&self, name: String, connection: ConnectionType) -> (h: Self)
        ensures
            h.name == name,
            h.connection == connection,
    {
        HostConfig { name, connection }
    }

    pub fn display_name(&self) -> (s: String)
        ensures
            s@ == self.spec_display_name(),
    {
        let mut s = self.name.clone();
        s.append(" (");
        let addr = self.connection.bollard_addr();
        s.append(addr.as_str());
        s.append(")");
        s
    }

    /// True for a local Unix socket, which needs no TLS.
    pub fn is_local(&self) -> (b: bool)
        ensures
            b == self.connection.spec_is_local(),
    {
        self.connection.is_local()
    }
}

/// Runtime state of one host: its status, its containers and the cursor.
pub struct HostState {
    pub config: HostConfig,
    pub status: HostStatus,
    pub containers: Vec<ContainerInfo>,
    pub selected: usize,
}

/// Index of the first container whose id is `id`, if any.
pub open spec fn first_with_id(s: Seq<ContainerView>, id: Seq<char>) -> Option<int> {
    if exists|i: int| 0 <= i < s.len() && s[i].id@ == id && forall|j: int| 0 <= j < i ==> s[j].id@ != id {
        Some(choose|i: int| 0 <= i < s.len() && s[i].id@ == id && forall|j: int| 0 <= j < i ==> s[j].id@ != id)
    } else {
        None
    }
}

/// Number of running containers in `s`.
pub open spec fn running_in(s: Seq<ContainerView>) -> nat
    decreases s.len(),
{
    if s.len() == 0 {
        0
    } else {
        running_in(s.drop_last()) + if s.last().state == ContainerState::Running { 1nat } else { 0nat }
    }
}

proof fn lemma_first_with_id_at(s: Seq<ContainerView>, id: Seq<char>, i: int)
    requires
        0 <= i < s.len(),
        s[i].id@ == id,
        forall|j: int| 0 <= j < i ==> s[j].id@ != id,
    ensures
        first_with_id(s, id) == Some(i),
{
    let k = choose|k: int| 0 <= k < s.len() && s[k].id@ == id && forall|j: int| 0 <= j < k ==> s[j].id@ != id;
    if k < i {
    } else if k > i {
        assert(s[i].id@ != id);
    }
}

fn find_container(v: &Vec<ContainerInfo>, id: &str) -> (r: Option<usize>)
    ensures
        r matches Some(i) ==> first_with_id(v.deep_view(), id@) == Some(i as int),
        r is None ==> first_with_id(v.deep_view(), id@) is None,
{
    let ghost s = v.deep_view();
    let mut i: usize = 0;
    while i < v.len()
        invariant
            i <= v.len(),
            s == v.deep_view(),
            forall|j: int| 0 <= j < i ==> s[j].id@ != id@,
        decreases v.len() - i,
    {
        if crate::text::str_eq(v[i].id.as_str(), id) {
            proof {
                lemma_first_with_id_at(s, id@, i as int);
            }
            return Some(i);
        }
        i = i + 1;
    }
    None
}

impl HostState {
    /// The cursor is on a container, or at the top of an empty list.
    pub open spec fn well_formed(&self) -> bool {
        self.selected == 0 || self.selected < self.containers.len()
    }

    pub open spec fn view_containers(&self) -> Seq<ContainerView> {
        self.containers.deep_view()
    }

    /// A host that is still connecting, with no containers yet.
    pub fn new(config: HostConfig) -> (h: Self)
        ensures
            h.well_formed(),
            h.config == config,
            h.status is Connecting,
            h.containers@.len() == 0,
            h.selected == 0,
    {
        HostState {
            config,
            status: HostStatus::Connecting,
            containers: Vec::new(),
            selected: 0,
        }
    }

    /// Replaces the container list with a fresh snapshot and puts the cursor
    /// back at the top.
    pub fn apply_container_list(&mut self, containers: Vec<ContainerInfo>)
        ensures
            final(self).containers == containers,
            final(self).selected == 0,
            final(self).config == old(self).config,
            final(self).status == old(self).status,
            final(self).well_formed(),
    {
        self.containers = containers;
        self.selected = 0;
    }

    /// Sets the live CPU (hundredths of a percent), memory and network
    /// figures of the first container with the given id and records the CPU
    /// and memory samples in its sparkline histories; no change when none
    /// has it.
    pub fn apply_stats_update(&mut self, id: &str, cpu: u64, mem: u64, net_rx: u64, net_tx: u64)
        ensures
            final(self).config == old(self).config,
            final(self).status == old(self).status,
            final(self).selected == old(self).selected,
            final(self).containers@.len() == old(self).containers@.len(),
            match first_with_id(old(self).view_containers(), id@) {
                Some(i) => final(self).view_containers() == old(self).view_containers().update(
                    i,
                    ContainerView {
                        cpu_percent: cpu,
                        mem_usage: mem,
                        net_rx: net_rx,
                        net_tx: net_tx,
                        cpu_history: ring_push(old(self).view_containers()[i].cpu_history, cpu, SPARKLINE_LEN as nat),
                        mem_history: ring_push(old(self).view_containers()[i].mem_history, mem, SPARKLINE_LEN as nat),
                        ..old(self).view_containers()[i]
                    },
                ),
                None => final(self).view_containers() == old(self).view_containers(),
            },
    {
        let found = find_container(&self.containers, id);
        if let Some(i) = found {
            let ghost before = self.containers.deep_view();
            let c = &mut self.containers[i];
            c.cpu_percent = cpu;
            c.mem_usage = mem;
            c.net_rx = net_rx;
            c.net_tx = net_tx;
            c.push_cpu_sample(cpu);
            c.push_mem_sample(mem);
            proof {
                let after = self.containers.deep_view();
                assert(after =~= before.update(
                    i as int,
                    ContainerView {
                        cpu_percent: cpu,
                        mem_usage: mem,
                        net_rx: net_rx,
                        net_tx: net_tx,
                        cpu_history: ring_push(before[i as int].cpu_history, cpu, SPARKLINE_LEN as nat),
                        mem_history: ring_push(before[i as int].mem_history, mem, SPARKLINE_LEN as nat),
                        ..before[i as int]
                    },
                ));
            }
        }
    }

    /// Appends a log line to the first container with the given id, dropping
    /// its oldest line once more than `LOG_BUFFER_CAPACITY` are held.
    pub fn append_log_line(&mut self, id: &str, line: String)
        ensures
            final(self).config == old(self).config,
            final(self).status == old(self).status,
            final(self).selected == old(self).selected,
            final(self).containers@.len() == old(self).containers@.len(),
            match first_with_id(old(self).view_containers(), id@) {
                Some(i) => final(self).view_containers() == old(self).view_containers().update(
                    i,
                    ContainerView {
                        log_lines: bounded_append(old(self).view_containers()[i].log_lines, line),
                        ..old(self).view_containers()[i]
                    },
                ),
                None => final(self).view_containers() == old(self).view_containers(),
            },
    {
        let found = find_container(&self.containers, id);
        if let Some(i) = found {
            let ghost before = self.containers.deep_view();
            let c = &mut self.containers[i];
            c.log_lines.push_back(line);
            if c.log_lines.len() > LOG_BUFFER_CAPACITY {
                c.log_lines.pop_front();
            }
            proof {
                let after = self.containers.deep_view();
                assert(after =~= before.update(
                    i as int,
                    ContainerView {
                        log_lines: bounded_append(before[i as int].log_lines, line),
                        ..before[i as int]
                    },
                ));
            }
        }
    }

    /// A copy of the container under the cursor, or `None` for an empty list.
    pub fn selected_container(&self) -> (r: Option<ContainerInfo>)
        requires
            self.well_formed(),
        ensures
            self.containers@.len() == 0 ==> r is None,
            self.containers@.len() > 0 ==> (r matches Some(c) && c@ == self.containers@[self.selected as int]@),
    {
        if self.containers.len() == 0 {
            None
        } else {
            Some(self.containers[self.selected].duplicate())
        }
    }

    /// Moves the cursor down one row, stopping at the last container.
    pub fn next_container(&mut self)
        requires
            old(self).well_formed(),
        ensures
            final(self).well_formed(),
            final(self).containers == old(self).containers,
            final(self).config == old(self).config,
            final(self).status == old(self).status,
            final(self).selected == if old(self).selected + 1 < old(self).containers@.len() {
                old(self).selected + 1
            } else {
                old(self).selected as int
            },
    {
        if self.containers.len() == 0 {
            return;
        }
        if self.selected < self.containers.len() - 1 {
            self.selected += 1;
        }
    }

    /// Moves the cursor up one row, stopping at the first container.
    pub fn prev_container(&mut self)
        requires
            old(self).well_formed(),
        ensures
            final(self).well_formed(),
            final(self).containers == old(self).containers,
            final(self).config == old(self).config,
            final(self).status == old(self).status,
            final(self).selected == if old(self).selected > 0 && old(self).containers@.len() > 0 {
                old(self).selected - 1
            } else {
                old(self).selected as int
            },
    {
        if self.containers.len() == 0 {
            return;
        }
        if self.selected > 0 {
            self.selected -= 1;
        }
    }

    /// Puts the cursor on the first container.
    pub fn jump_top(&mut self)
        ensures
            final(self).well_formed(),
            final(self).containers == old(self).containers,
            final(self).config == old(self).config,
            final(self).status == old(self).status,
            final(self).selected == 0,
    {
        self.selected = 0;
    }

    /// Puts the cursor on the last container (no change for an empty list).
    pub fn jump_bottom(&mut self)
        requires
            old(self).well_formed(),
        ensures
            final(self).well_formed(),
            final(self).containers == old(self).containers,
            final(self).config == old(self).config,
            final(self).status == old(self).status,
            old(self).containers@.len() > 0 ==> final(self).selected == old(self).containers@.len() - 1,
            old(self).containers@.len() == 0 ==> final(self).selected == old(self).selected,
    {
        if self.containers.len() == 0 {
            return;
        }
        self.selected = self.containers.len() - 1;
    }

    /// Number of containers in the Running state.
    pub fn running_count(&self) -> (n: usize)
        ensures
            n == running_in(self.view_containers()),
    {
        let ghost s = self.view_containers();
        let mut n: usize = 0;
        let mut i: usize = 0;
        while i < self.containers.len()
            invariant
                i <= self.containers@.len(),
                s == self.view_containers(),
                n == running_in(s.take(i as int)),
                n <= i,
            decreases self.containers@.len() - i,
        {
            assert(s.take(i as int + 1).drop_last() =~= s.take(i as int));
            if self.containers[i].is_running() {
                n = n + 1;
            }
            i = i + 1;
        }
        assert(s.take(i as int) =~= s);
        n
    }

    /// The containers grouped by Compose project: one group per project,
    /// sorted by name with `ungrouped` (no project) last, each group keeping
    /// the list order of its containers.
    pub fn grouped_by_compose(&self) -> (groups: Vec<ComposeGroup>)
        ensures
            is_grouping(self.view_containers(), groups.deep_view()),
    {
        group_by_compose(&self.containers)
    }

    /// Number of containers, whatever their state.
    pub fn total_count(&self) -> (n: usize)
        ensures
            n == self.containers@.len(),
    {
        self.containers.len()
    }
}

/// Appends `line` to a log, dropping the oldest line when that takes the
/// log past `LOG_BUFFER_CAPACITY`.
pub open spec fn bounded_append(s: Seq<String>, line: String) -> Seq<String> {
    if s.len() + 1 > LOG_BUFFER_CAPACITY {
        s.push(line).drop_first()
    } else {
        s.push(line)
    }
}

/// A host never counts more running containers than it holds.
pub proof fn lemma_running_at_most_total(s: Seq<ContainerView>)
    ensures
        running_in(s) <= s.len(),
    decreases s.len(),
{
    if s.len() > 0 {
        lemma_running_at_most_total(s.drop_last());
    }
}

} // verus!
