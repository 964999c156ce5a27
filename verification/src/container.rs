//! Containers: their lifecycle state, published ports and the live figures
//! the dashboard keeps for each of them.
use std::collections::VecDeque;
use vstd::prelude::*;
use crate::colour::Colour;
use vstd::utf8::{encode_utf8, is_char_boundary};
use vstd::string::StringSliceAdditionalSpecFns;
use crate::text::{decimal, push_decimal, str_eq};

verus! {

/// How many samples each sparkline history keeps.
pub const SPARKLINE_LEN: usize = 60;

/// The lifecycle state Docker reports for a container.
#[derive(Debug, Clone, Copy, PartialEq, Eq, Structural)]
pub enum ContainerState {
    Running,
    Paused,
    Exited,
    Restarting,
    Dead,
    Unknown,
}

/// The state named by Docker's lower-case state string; anything else is `Unknown`.
pub open spec fn state_from_label(s: Seq<char>) -> ContainerState {
    if s == "running"@ {
        ContainerState::Running
    } else if s == "paused"@ {
        ContainerState::Paused
    } else if s == "restarting"@ {
        ContainerState::Restarting
    } else if s == "exited"@ {
        ContainerState::Exited
    } else if s == "dead"@ {
        ContainerState::Dead
    } else {
        ContainerState::Unknown
    }
}

impl ContainerState {
    pub open spec fn spec_label(self) -> Seq<char> {
        match self {
            ContainerState::Running => "running"@,
            ContainerState::Paused => "paused"@,
            ContainerState::Restarting => "restarting"@,
            ContainerState::Exited => "exited"@,
            ContainerState::Dead => "dead"@,
            ContainerState::Unknown => "unknown"@,
        }
    }

    pub open spec fn spec_colour(self) -> Colour {
        match self {
            ContainerState::Running => Colour::Green,
            ContainerState::Paused => Colour::Yellow,
            ContainerState::Restarting => Colour::Yellow,
            ContainerState::Exited => Colour::DarkGray,
            ContainerState::Dead => Colour::Red,
            ContainerState::Unknown => Colour::Gray,
        }
    }

    pub open spec fn spec_icon(self) -> Seq<char> {
        match self {
            ContainerState::Running => "󰄬"@,
            ContainerState::Paused => "󰏤"@,
            ContainerState::Restarting => "󰑐"@,
            ContainerState::Exited => "󱗜"@,
            ContainerState::Dead => "󰚌"@,
            ContainerState::Unknown => "󰋗"@,
        }
    }

    /// Colour used for the state column.
    pub fn colour(&self) -> (c: Colour)
        ensures
            c == self.spec_colour(),
    {
        match self {
            ContainerState::Running => Colour::Green,
            ContainerState::Paused => Colour::Yellow,
            ContainerState::Restarting => Colour::Yellow,
            ContainerState::Exited => Colour::DarkGray,
            ContainerState::Dead => Colour::Red,
            ContainerState::Unknown => Colour::Gray,
        }
    }

    /// Nerd Font glyph for the state.
    pub fn icon(&self) -> (s: &'static str)
        ensures
            s@ == self.spec_icon(),
    {
        match self {
            ContainerState::Running => "󰄬",
            ContainerState::Paused => "󰏤",
            ContainerState::Restarting => "󰑐",
            ContainerState::Exited => "󱗜",
            ContainerState::Dead => "󰚌",
            ContainerState::Unknown => "󰋗",
        }
    }

    /// Lower-case name of the state, as Docker spells it.
    pub fn label(&self) -> (s: &'static str)
        ensures
            s@ == self.spec_label(),
    {
        match self {
            ContainerState::Running => "running",
            ContainerState::Paused => "paused",
            ContainerState::Restarting => "restarting",
            ContainerState::Exited => "exited",
            ContainerState::Dead => "dead",
            ContainerState::Unknown => "unknown",
        }
    }

    /// Parses Docker's state string; unrecognised strings give `Unknown`.
    pub fn from_label(s: &str) -> (st: ContainerState)
        ensures
            st == state_from_label(s@),
    {
        if str_eq(s, "running") {
            ContainerState::Running
        } else if str_eq(s, "paused") {
            ContainerState::Paused
        } else if str_eq(s, "restarting") {
            ContainerState::Restarting
        } else if str_eq(s, "exited") {
            ContainerState::Exited
        } else if str_eq(s, "dead") {
            ContainerState::Dead
        } else {
            ContainerState::Unknown
        }
    }
}

impl<'a> From<&'a str> for ContainerState {
    /// Parses Docker's state string (see `ContainerState::from_label`).
    fn from(s: &'a str) -> (st: Self) {
        ContainerState::from_label(s)
    }
}

impl<'a> vstd::std_specs::convert::FromSpecImpl<&'a str> for ContainerState {
    open spec fn obeys_from_spec() -> bool {
        true
    }

    open spec fn from_spec(v: &'a str) -> ContainerState {
        state_from_label(v@)
    }
}

/// Parsing a state's own label gives that state back.
pub proof fn lemma_state_label_round_trip(s: ContainerState)
    ensures
        state_from_label(s.spec_label()) == s,
{
    reveal_strlit("running");
    reveal_strlit("paused");
    reveal_strlit("restarting");
    reveal_strlit("exited");
    reveal_strlit("dead");
    reveal_strlit("unknown");
    assert("paused"@[0] != "running"@[0]);
    assert("restarting"@[1] != "running"@[1]);
    assert("restarting"@[0] != "paused"@[0]);
    assert("exited"@[0] != "running"@[0]);
    assert("exited"@[0] != "paused"@[0]);
    assert("exited"@[0] != "restarting"@[0]);
    assert("dead"@[0] != "running"@[0]);
    assert("dead"@[0] != "paused"@[0]);
    assert("dead"@[0] != "restarting"@[0]);
    assert("dead"@[0] != "exited"@[0]);
    assert("unknown"@[0] != "running"@[0]);
    assert("unknown"@[0] != "paused"@[0]);
    assert("unknown"@[0] != "restarting"@[0]);
    assert("unknown"@[0] != "exited"@[0]);
    assert("unknown"@[0] != "dead"@[0]);
}

/// A published port: `host_ip:host_port` forwarded to `container_port`.
#[derive(Debug)]
pub struct PortBinding {
    pub host_ip: String,
    pub host_port: u16,
    pub container_port: u16,
    pub protocol: String,
}

impl Clone for PortBinding {
    fn clone(&self) -> (r: Self)
        ensures
            r == *self,
    {
        PortBinding {
            host_ip: self.host_ip.clone(),
            host_port: self.host_port,
            container_port: self.container_port,
            protocol: self.protocol.clone(),
        }
    }
}

impl PortBinding {
    pub open spec fn spec_display(self) -> Seq<char> {
        self.host_ip@ + ":"@ + decimal(self.host_port as nat) + "->"@ + decimal(
            self.container_port as nat,
        ) + "/"@ + self.protocol@
    }

    /// `host_ip:host_port->container_port/protocol`.
    pub fn display(&self) -> (s: String)
        ensures
            s@ == self.spec_display(),
    {
        let mut s = self.host_ip.clone();
        s.append(":");
        push_decimal(&mut s, self.host_port as u64);
        s.append("->");
        push_decimal(&mut s, self.container_port as u64);
        s.append("/");
        s.append(self.protocol.as_str());
        s
    }
}

/// Everything the dashboard knows about one container.
///
/// CPU figures are kept in hundredths of a percent; `uptime` is in seconds.
#[derive(Debug)]
pub struct ContainerInfo {
    pub id: String,
    pub name: String,
    pub image: String,
    pub state: ContainerState,
    pub status: String,
    pub uptime: Option<u64>,
    pub compose_project: Option<String>,
    pub ports: Vec<PortBinding>,
    pub cpu_percent: u64,
    pub mem_usage: u64,
    pub mem_limit: u64,
    pub cpu_history: VecDeque<u64>,
    pub mem_history: VecDeque<u64>,
    pub net_rx: u64,
    pub net_tx: u64,
    pub log_lines: VecDeque<String>,
}

/// The mathematical value of a `ContainerInfo`: its collections as sequences.
pub struct ContainerView {
    pub id: String,
    pub name: String,
    pub image: String,
    pub state: ContainerState,
    pub status: String,
    pub uptime: Option<u64>,
    pub compose_project: Option<String>,
    pub ports: Seq<PortBinding>,
    pub cpu_percent: u64,
    pub mem_usage: u64,
    pub mem_limit: u64,
    pub cpu_history: Seq<u64>,
    pub mem_history: Seq<u64>,
    pub net_rx: u64,
    pub net_tx: u64,
    pub log_lines: Seq<String>,
}

impl View for ContainerInfo {
    type V = ContainerView;

    open spec fn view(&self) -> ContainerView {
        ContainerView {
            id: self.id,
            name: self.name,
            image: self.image,
            state: self.state,
            status: self.status,
            uptime: self.uptime,
            compose_project: self.compose_project,
            ports: self.ports@,
            cpu_percent: self.cpu_percent,
            mem_usage: self.mem_usage,
            mem_limit: self.mem_limit,
            cpu_history: self.cpu_history@,
            mem_history: self.mem_history@,
            net_rx: self.net_rx,
            net_tx: self.net_tx,
            log_lines: self.log_lines@,
        }
    }
}

impl DeepView for ContainerInfo {
    type V = ContainerView;

    open spec fn deep_view(&self) -> ContainerView {
        self@
    }
}

fn clone_opt_string(o: &Option<String>) -> (r: Option<String>)
    ensures
        r == *o,
{
    match o {
        Some(s) => Some(s.clone()),
        None => None,
    }
}

fn clone_ports(v: &Vec<PortBinding>) -> (r: Vec<PortBinding>)
    ensures
        r@ == v@,
{
    let mut r: Vec<PortBinding> = Vec::new();
    let mut i: usize = 0;
    while i < v.len()
        invariant
            i <= v.len(),
            r@ == v@.take(i as int),
        decreases v.len() - i,
    {
        r.push(v[i].clone());
        i = i + 1;
        assert(r@ =~= v@.take(i as int));
    }
    assert(v@.take(i as int) =~= v@);
    r
}

fn clone_lines(v: &VecDeque<String>) -> (r: VecDeque<String>)
    ensures
        r@ == v@,
{
    let mut r: VecDeque<String> = VecDeque::new();
    let mut i: usize = 0;
    while i < v.len()
        invariant
            i <= v@.len(),
            r@ == v@.take(i as int),
        decreases v@.len() - i,
    {
        r.push_back(v[i].clone());
        i = i + 1;
        assert(r@ =~= v@.take(i as int));
    }
    assert(v@.take(i as int) =~= v@);
    r
}

fn clone_samples(v: &VecDeque<u64>) -> (r: VecDeque<u64>)
    ensures
        r@ == v@,
{
    let mut r: VecDeque<u64> = VecDeque::new();
    let mut i: usize = 0;
    while i < v.len()
        invariant
            i <= v@.len(),
            r@ == v@.take(i as int),
        decreases v@.len() - i,
    {
        r.push_back(v[i]);
        i = i + 1;
        assert(r@ =~= v@.take(i as int));
    }
    assert(v@.take(i as int) =~= v@);
    r
}

impl ContainerInfo {
    /// A copy with the same value.
    pub fn duplicate(&self) -> (r: ContainerInfo)
        ensures
            r@ == self@,
    {
        ContainerInfo {
            id: self.id.clone(),
            name: self.name.clone(),
            image: self.image.clone(),
            state: self.state,
            status: self.status.clone(),
            uptime: self.uptime,
            compose_project: clone_opt_string(&self.compose_project),
            ports: clone_ports(&self.ports),
            cpu_percent: self.cpu_percent,
            mem_usage: self.mem_usage,
            mem_limit: self.mem_limit,
            cpu_history: clone_samples(&self.cpu_history),
            mem_history: clone_samples(&self.mem_history),
            net_rx: self.net_rx,
            net_tx: self.net_tx,
            log_lines: clone_lines(&self.log_lines),
        }
    }
}

impl Clone for ContainerInfo {
    fn clone(&self) -> (r: Self)
        ensures
            r@ == self@,
    {
        self.duplicate()
    }
}

/// Appends `x` to a bounded history, first dropping the oldest sample when
/// the history already holds `cap` samples or more.
pub open spec fn ring_push<T>(s: Seq<T>, x: T, cap: nat) -> Seq<T> {
    if s.len() >= cap {
        s.drop_first().push(x)
    } else {
        s.push(x)
    }
}

/// Uptime as shown in the detail panel: `"{d}d {h}h {m}m"` from one day on,
/// `"{h}h {m}m"` from one hour on, else `"{m}m"`; `"—"` when unknown.
pub open spec fn uptime_text(uptime: Option<u64>) -> Seq<char> {
    match uptime {
        None => "—"@,
        Some(secs) => {
            let days = secs / 86400;
            let hours = (secs % 86400) / 3600;
            let mins = (secs % 3600) / 60;
            if days > 0 {
                decimal(days as nat) + "d "@ + decimal(hours as nat) + "h "@ + decimal(mins as nat) + "m"@
            } else if hours > 0 {
                decimal(hours as nat) + "h "@ + decimal(mins as nat) + "m"@
            } else {
                decimal(mins as nat) + "m"@
            }
        },
    }
}

/// Byte length of the short form of an id: at most the first twelve bytes.
pub open spec fn short_id_len(id: Seq<char>) -> int {
    let n = encode_utf8(id).len();
    if n < 12 { n as int } else { 12 }
}

impl ContainerInfo {
    /// Records a CPU sample (hundredths of a percent) as the current value
    /// and in the bounded history.
    pub fn push_cpu_sample(&mut self, cpu: u64)
        ensures
            final(self)@ == (ContainerView {
                cpu_percent: cpu,
                cpu_history: ring_push(old(self).cpu_history@, cpu, SPARKLINE_LEN as nat),
                ..old(self)@
            }),
    {
        self.cpu_percent = cpu;
        if self.cpu_history.len() >= SPARKLINE_LEN {
            self.cpu_history.pop_front();
        }
        self.cpu_history.push_back(cpu);
    }

    /// Records a memory sample (bytes) as the current value and in the
    /// bounded history.
    pub fn push_mem_sample(&mut self, mem: u64)
        ensures
            final(self)@ == (ContainerView {
                mem_usage: mem,
                mem_history: ring_push(old(self).mem_history@, mem, SPARKLINE_LEN as nat),
                ..old(self)@
            }),
    {
        self.mem_usage = mem;
        if self.mem_history.len() >= SPARKLINE_LEN {
            self.mem_history.pop_front();
        }
        self.mem_history.push_back(mem);
    }

    /// The CPU history, oldest first.
    pub fn cpu_sparkline(&self) -> (v: Vec<u64>)
        ensures
            v@ == self.cpu_history@,
    {
        let mut v: Vec<u64> = Vec::new();
        let mut i: usize = 0;
        while i < self.cpu_history.len()
            invariant
                i <= self.cpu_history@.len(),
                v@ == self.cpu_history@.take(i as int),
            decreases self.cpu_history@.len() - i,
        {
            v.push(self.cpu_history[i]);
            i = i + 1;
            assert(v@ =~= self.cpu_history@.take(i as int));
        }
        assert(self.cpu_history@.take(i as int) =~= self.cpu_history@);
        v
    }

    /// The memory history, oldest first.
    pub fn mem_sparkline(&self) -> (v: Vec<u64>)
        ensures
            v@ == self.mem_history@,
    {
        let mut v: Vec<u64> = Vec::new();
        let mut i: usize = 0;
        while i < self.mem_history.len()
            invariant
                i <= self.mem_history@.len(),
                v@ == self.mem_history@.take(i as int),
            decreases self.mem_history@.len() - i,
        {
            v.push(self.mem_history[i]);
            i = i + 1;
            assert(v@ =~= self.mem_history@.take(i as int));
        }
        assert(self.mem_history@.take(i as int) =~= self.mem_history@);
        v
    }

    /// Memory use as a share of the limit, in hundredths of a percent
    /// (rounded down); 0 when no limit is known.
    pub fn mem_percent(&self) -> (p: u128)
        ensures
            self.mem_limit == 0 ==> p == 0,
            self.mem_limit > 0 ==> p == (self.mem_usage as int * 10000) / self.mem_limit as int,
    {
        if self.mem_limit == 0 {
            return 0;
        }
        (self.mem_usage as u128 * 10000) / self.mem_limit as u128
    }

    pub fn is_running(&self) -> (b: bool)
        ensures
            b == (self.state == ContainerState::Running),
    {
        self.state == ContainerState::Running
    }

    /// The first twelve bytes of the id (the whole id when shorter).
    pub fn short_id(&self) -> (r: &str)
        requires
            encode_utf8(self.id@).len() <= usize::MAX,
            is_char_boundary(encode_utf8(self.id@), short_id_len(self.id@)),
        ensures
            encode_utf8(r@) == encode_utf8(self.id@).take(short_id_len(self.id@)),
    {
        let s = self.id.as_str();
        assert(s.spec_bytes() == encode_utf8(self.id@));
        let n = if s.len() < 12 { s.len() } else { 12 };
        assert(n == short_id_len(self.id@));
        let (head, _) = s.split_at(n);
        head
    }

    /// Human-readable uptime.
    pub fn formatted_uptime(&self) -> (s: String)
        ensures
            s@ == uptime_text(self.uptime),
    {
        match self.uptime {
            None => String::from_str("—"),
            Some(secs) => {
                let days = secs / 86400;
                let hours = (secs % 86400) / 3600;
                let mins = (secs % 3600) / 60;
                let mut s = String::new();
                if days > 0 {
                    push_decimal(&mut s, days);
                    s.append("d ");
                    push_decimal(&mut s, hours);
                    s.append("h ");
                    push_decimal(&mut s, mins);
                    s.append("m");
                } else if hours > 0 {
                    push_decimal(&mut s, hours);
                    s.append("h ");
                    push_decimal(&mut s, mins);
                    s.append("m");
                } else {
                    push_decimal(&mut s, mins);
                    s.append("m");
                }
                s
            },
        }
    }
}

/// The uptime of a container at `now` (seconds since the epoch), given its
/// creation time as the daemon reports it: only a running container with a
/// known creation time has one; a creation time before the epoch counts as
/// the epoch, and one after `now` gives zero.
pub open spec fn spec_uptime_at(running: bool, created: Option<i64>, now: u64) -> Option<u64> {
    match created {
        Some(c) => if running {
            let start: int = if c < 0 { 0 } else { c as int };
            Some(if now >= start { (now - start) as u64 } else { 0 })
        } else {
            None
        },
        None => None,
    }
}

pub fn uptime_at(running: bool, created: Option<i64>, now: u64) -> (u: Option<u64>)
    ensures
        u == spec_uptime_at(running, created, now),
{
    match created {
        Some(c) => if running {
            let start: u64 = if c < 0 { 0 } else { c as u64 };
            Some(now.saturating_sub(start))
        } else {
            None
        },
        None => None,
    }
}

/// A container's display name: its first name without Docker's leading
/// `/`; empty when it has none.
pub open spec fn display_name_of(names: Seq<String>) -> Seq<char> {
    if names.len() == 0 {
        Seq::empty()
    } else if names[0]@.len() > 0 && names[0]@[0] == '/' {
        names[0]@.drop_first()
    } else {
        names[0]@
    }
}

pub fn container_name(names: &Vec<String>) -> (s: String)
    ensures
        s@ == display_name_of(names@),
{
    if names.len() == 0 {
        return String::new();
    }
    let cs = crate::text::chars_of(names[0].as_str());
    let start: usize = if cs.len() > 0 && cs[0] == '/' { 1 } else { 0 };
    let mut s = String::new();
    let mut i = start;
    while i < cs.len()
        invariant
            start <= i <= cs@.len(),
            cs@ == names@[0]@,
            s@ == cs@.subrange(start as int, i as int),
        decreases cs@.len() - i,
    {
        s.push(cs[i]);
        i = i + 1;
        assert(s@ =~= cs@.subrange(start as int, i as int));
    }
    assert(cs@.subrange(start as int, cs@.len() as int) =~= display_name_of(names@));
    s
}

impl ContainerInfo {
    /// A container as the daemon lists it, with no live figures, history or
    /// log lines yet.
    pub fn from_summary(
        id: String,
        name: String,
        image: String,
        state: ContainerState,
        status: String,
        uptime: Option<u64>,
        compose_project: Option<String>,
        ports: Vec<PortBinding>,
    ) -> (c: Self)
        ensures
            c@ == (ContainerView {
                id: id,
                name: name,
                image: image,
                state: state,
                status: status,
                uptime: uptime,
                compose_project: compose_project,
                ports: ports@,
                cpu_percent: 0,
                mem_usage: 0,
                mem_limit: 0,
                cpu_history: Seq::empty(),
                mem_history: Seq::empty(),
                net_rx: 0,
                net_tx: 0,
                log_lines: Seq::empty(),
            }),
    {
        let c = ContainerInfo {
            id,
            name,
            image,
            state,
            status,
            uptime,
            compose_project,
            ports,
            cpu_percent: 0,
            mem_usage: 0,
            mem_limit: 0,
            cpu_history: VecDeque::new(),
            mem_history: VecDeque::new(),
            net_rx: 0,
            net_tx: 0,
            log_lines: VecDeque::new(),
        };
        assert(c.cpu_history@ =~= Seq::<u64>::empty());
        c
    }
}

} // verus!
