//! Decisions of the per-host worker: how to connect, what each command
//! asks of the daemon, which stats streams to keep, when to restart a log
//! tail, how log chunks become lines, and the connect/poll/back-off cycle.
use vstd::prelude::*;
use crate::container::{ContainerInfo, ContainerState, ContainerView};
use crate::host::{ConnectionType, HostConfig, HostStatus};
use crate::messages::HostCommand;
use crate::text::{push_decimal, str_eq};

verus! {

/// Seconds between container-list polls.
pub const POLL_INTERVAL_S: u64 = 2;
/// Seconds to wait before reconnecting to an unreachable host.
pub const RETRY_INTERVAL_S: u64 = 10;
/// Timeout handed to the Docker client constructors, in seconds.
pub const CONNECT_TIMEOUT_S: u64 = 30;
/// Seconds a stopping container is given before it is killed.
pub const STOP_TIMEOUT_S: i32 = 10;

/// How to build the Docker client for a host.
#[derive(Debug)]
pub enum ConnectPlan {
    Unix { path: String },
    Http { addr: String },
    Tls { addr: String, key: String, cert: String, ca: String },
}

/// `base` joined with the relative file name `name`, as a path.
pub open spec fn path_join(base: Seq<char>, name: Seq<char>) -> Seq<char> {
    if base.len() == 0 {
        name
    } else if base.last() == '/' {
        base + name
    } else {
        base + "/"@ + name
    }
}

/// Joins a directory and a relative file name with one separator.
pub fn join_path(base: &str, name: &str) -> (p: String)
    ensures
        p@ == path_join(base@, name@),
{
    let chars = crate::text::chars_of(base);
    let mut p = String::from_str(base);
    if chars.len() > 0 && chars[chars.len() - 1] != '/' {
        p.append("/");
    }
    p.append(name);
    p
}

/// `tcp://host:port`.
pub open spec fn tcp_addr(host: Seq<char>, port: u16) -> Seq<char> {
    "tcp://"@ + host + ":"@ + crate::text::decimal(port as nat)
}

/// The client a host needs: a Unix socket path; plain HTTP to `tcp://host:port`;
/// or TLS to that address with `key.pem` and `cert.pem` from the
/// certificate directory and the CA from `ca_cert`, else `ca.pem` there.
pub open spec fn spec_connect_plan(config: HostConfig) -> ConnectPlanView {
    match config.connection {
        ConnectionType::UnixSocket(path) => ConnectPlanView::Unix { path: path@ },
        ConnectionType::Tcp { host, port, tls } => match tls {
            None => ConnectPlanView::Http { addr: tcp_addr(host@, port) },
            Some(t) => ConnectPlanView::Tls {
                addr: tcp_addr(host@, port),
                key: path_join(t.cert_path@, "key.pem"@),
                cert: path_join(t.cert_path@, "cert.pem"@),
                ca: match t.ca_cert {
                    Some(c) => c@,
                    None => path_join(t.cert_path@, "ca.pem"@),
                },
            },
        },
    }
}

/// The mathematical value of a `ConnectPlan`.
pub enum ConnectPlanView {
    Unix { path: Seq<char> },
    Http { addr: Seq<char> },
    Tls { addr: Seq<char>, key: Seq<char>, cert: Seq<char>, ca: Seq<char> },
}

impl View for ConnectPlan {
    type V = ConnectPlanView;

    open spec fn view(&self) -> ConnectPlanView {
        match self {
            ConnectPlan::Unix { path } => ConnectPlanView::Unix { path: path@ },
            ConnectPlan::Http { addr } => ConnectPlanView::Http { addr: addr@ },
            ConnectPlan::Tls { addr, key, cert, ca } => ConnectPlanView::Tls {
                addr: addr@,
                key: key@,
                cert: cert@,
                ca: ca@,
            },
        }
    }
}

fn tcp_address(host: &String, port: u16) -> (s: String)
    ensures
        s@ == tcp_addr(host@, port),
{
    let mut s = String::from_str("tcp://");
    s.append(host.as_str());
    s.append(":");
    push_decimal(&mut s, port as u64);
    s
}

/// Decides how to connect to a host.
pub fn connect_plan(config: &HostConfig) -> (p: ConnectPlan)
    ensures
        p@ == spec_connect_plan(*config),
{
    match &config.connection {
        ConnectionType::UnixSocket(path) => ConnectPlan::Unix { path: path.clone() },
        ConnectionType::Tcp { host, port, tls } => {
            let addr = tcp_address(host, *port);
            match tls {
                None => ConnectPlan::Http { addr },
                Some(t) => {
                    let key = join_path(t.cert_path.as_str(), "key.pem");
                    let cert = join_path(t.cert_path.as_str(), "cert.pem");
                    let ca = match &t.ca_cert {
                        Some(c) => c.clone(),
                        None => join_path(t.cert_path.as_str(), "ca.pem"),
                    };
                    ConnectPlan::Tls { addr, key, cert, ca }
                },
            }
        },
    }
}

/// What a command asks of the Docker daemon.
#[derive(Debug)]
pub enum DaemonRequest {
    Start { id: String },
    /// Stop, killing the container after `timeout_s` seconds.
    Stop { id: String, timeout_s: i32 },
    Restart { id: String },
    /// Remove; `force` also removes a running container.
    Remove { id: String, force: bool },
    /// Pull the image by this name.
    Pull { image: String },
    /// Follow the logs of `id`: `follow` keeps the stream open, `stdout`
    /// and `stderr` select the streams, `timestamps` prefixes each line
    /// with its time, and `tail` is how many lines back to start, as the
    /// daemon's decimal text.
    TailLogs { id: String, follow: bool, stdout: bool, stderr: bool, timestamps: bool, tail: String },
    /// The command cannot be served by the worker; the text says why.
    Refuse { reason: String },
    /// End the session.
    Shutdown,
}

/// The daemon request for each command.
pub open spec fn spec_request(cmd: HostCommand) -> DaemonRequest {
    match cmd {
        HostCommand::StartContainer(id) => DaemonRequest::Start { id },
        HostCommand::StopContainer(id) => DaemonRequest::Stop { id, timeout_s: STOP_TIMEOUT_S },
        HostCommand::RestartContainer(id) => DaemonRequest::Restart { id },
        HostCommand::RemoveContainer(id) => DaemonRequest::Remove { id, force: true },
        HostCommand::PullImage(image) => DaemonRequest::Pull { image },
        HostCommand::TailLogs { .. } => arbitrary(),
        HostCommand::ExecShell(_) => DaemonRequest::Refuse { reason: arbitrary() },
        HostCommand::Shutdown => DaemonRequest::Shutdown,
    }
}

/// `r` is the daemon request serving `cmd`; an exec shell is refused with
/// the reason `ExecShell must be handled by the UI layer`; a log tail
/// follows stdout and stderr without timestamps, from `lines` lines back.
pub open spec fn request_for(cmd: HostCommand, r: DaemonRequest) -> bool {
    &&& !(cmd is ExecShell) && !(cmd is TailLogs) ==> r == spec_request(cmd)
    &&& cmd matches HostCommand::TailLogs { id, lines } ==> (r matches DaemonRequest::TailLogs {
        id: rid,
        follow,
        stdout,
        stderr,
        timestamps,
        tail,
    } && rid == id && follow && stdout && stderr && !timestamps && tail@ == crate::text::decimal(lines as nat))
    &&& cmd is ExecShell ==> (r matches DaemonRequest::Refuse { reason }
        && reason@ == "ExecShell must be handled by the UI layer"@)
}

/// Turns a command into the daemon request that serves it. An exec
/// shell needs the terminal and is refused here.
pub fn plan_command(cmd: HostCommand) -> (r: DaemonRequest)
    ensures
        request_for(cmd, r),
{
    match cmd {
        HostCommand::StartContainer(id) => DaemonRequest::Start { id },
        HostCommand::StopContainer(id) => DaemonRequest::Stop { id, timeout_s: STOP_TIMEOUT_S },
        HostCommand::RestartContainer(id) => DaemonRequest::Restart { id },
        HostCommand::RemoveContainer(id) => DaemonRequest::Remove { id, force: true },
        HostCommand::PullImage(image) => DaemonRequest::Pull { image },
        HostCommand::TailLogs { id, lines } => {
            let tail = crate::text::to_decimal(lines);
            DaemonRequest::TailLogs { id, follow: true, stdout: true, stderr: true, timestamps: false, tail }
        },
        HostCommand::ExecShell(_) => DaemonRequest::Refuse {
            reason: String::from_str("ExecShell must be handled by the UI layer"),
        },
        HostCommand::Shutdown => DaemonRequest::Shutdown,
    }
}

/// Whether a log tail for `id` must be (re)started, given the current tail
/// (its container id and whether its stream has ended): only an active
/// tail of the same container is left alone.
pub fn needs_new_tail(current: &Option<(String, bool)>, id: &str) -> (b: bool)
    ensures
        b == !(current matches Some((cid, finished)) && cid@ == id@ && finished == false),
{
    match current {
        Some((cid, finished)) => !(str_eq(cid.as_str(), id) && !*finished),
        None => true,
    }
}

/// The ids of a list of strings, as character sequences.
pub open spec fn ids_of(v: Seq<String>) -> Seq<Seq<char>> {
    v.map_values(|x: String| x@)
}

/// Some running container in `s` has this id.
pub open spec fn running_id(s: Seq<ContainerView>, id: Seq<char>) -> bool {
    exists|i: int| 0 <= i < s.len() && s[i].state == ContainerState::Running && #[trigger] s[i].id@ == id
}

/// A stats stream (its container id, and whether it has ended) is kept
/// while its container runs and the stream is live.
pub open spec fn keeps(s: Seq<ContainerView>, task: (String, bool)) -> bool {
    running_id(s, task.0@) && !task.1
}

/// Running containers that need a new stats stream, in list order and
/// without repeats: those whose id no kept stream has.
pub open spec fn to_spawn(s: Seq<ContainerView>, kept: Seq<Seq<char>>) -> Seq<Seq<char>>
    decreases s.len(),
{
    if s.len() == 0 {
        Seq::empty()
    } else {
        let p = to_spawn(s.drop_last(), kept);
        let c = s.last();
        if c.state == ContainerState::Running && !kept.contains(c.id@) && !p.contains(c.id@) {
            p.push(c.id@)
        } else {
            p
        }
    }
}

/// Which stats streams to keep, which to abort and which to start.
pub struct StatsPlan {
    pub keep: Vec<String>,
    pub abort: Vec<String>,
    pub spawn: Vec<String>,
}

fn contains_str(v: &Vec<String>, x: &str) -> (b: bool)
    ensures
        b == ids_of(v@).contains(x@),
{
    let mut i: usize = 0;
    while i < v.len()
        invariant
            i <= v@.len(),
            forall|j: int| 0 <= j < i ==> (#[trigger] v@[j])@ != x@,
        decreases v@.len() - i,
    {
        if str_eq(v[i].as_str(), x) {
            assert(ids_of(v@)[i as int] == x@);
            return true;
        }
        i = i + 1;
    }
    proof {
        if ids_of(v@).contains(x@) {
            let j = choose|j: int| 0 <= j < ids_of(v@).len() && ids_of(v@)[j] == x@;
            assert(v@[j]@ == x@);
        }
    }
    false
}

fn is_running_id(cs: &Vec<ContainerInfo>, id: &str) -> (b: bool)
    ensures
        b == running_id(cs.deep_view(), id@),
{
    let ghost s = cs.deep_view();
    let mut i: usize = 0;
    while i < cs.len()
        invariant
            i <= cs@.len(),
            s == cs.deep_view(),
            forall|j: int| 0 <= j < i ==> !(s[j].state == ContainerState::Running && #[trigger] s[j].id@ == id@),
        decreases cs@.len() - i,
    {
        if cs[i].is_running() && str_eq(cs[i].id.as_str(), id) {
            assert(s[i as int].id@ == id@);
            return true;
        }
        i = i + 1;
    }
    false
}

/// Makes the stats streams mirror the running containers: streams of
/// containers that stopped or vanished, and streams that ended, are
/// aborted; each running container without a kept stream gets a new one.
pub fn plan_stats(containers: &Vec<ContainerInfo>, tasks: &Vec<(String, bool)>) -> (p: StatsPlan)
    ensures
        p.keep@ == tasks@.filter(|t: (String, bool)| keeps(containers.deep_view(), t)).map_values(
            |t: (String, bool)| t.0,
        ),
        p.abort@ == tasks@.filter(|t: (String, bool)| !keeps(containers.deep_view(), t)).map_values(
            |t: (String, bool)| t.0,
        ),
        ids_of(p.spawn@) == to_spawn(containers.deep_view(), ids_of(p.keep@)),
{
    let ghost s = containers.deep_view();
    let ghost kf = |t: (String, bool)| keeps(s, t);
    let ghost af = |t: (String, bool)| !keeps(s, t);
    let ghost fst = |t: (String, bool)| t.0;
    let mut keep: Vec<String> = Vec::new();
    let mut abort: Vec<String> = Vec::new();
    let mut i: usize = 0;
    while i < tasks.len()
        invariant
            i <= tasks@.len(),
            s == containers.deep_view(),
            kf == (|t: (String, bool)| keeps(s, t)),
            af == (|t: (String, bool)| !keeps(s, t)),
            fst == (|t: (String, bool)| t.0),
            keep@ == tasks@.take(i as int).filter(kf).map_values(fst),
            abort@ == tasks@.take(i as int).filter(af).map_values(fst),
        decreases tasks@.len() - i,
    {
        let ghost t0 = tasks@.take(i as int);
        proof {
            assert(tasks@.take(i as int + 1) =~= t0.push(tasks@[i as int]));
            t0.lemma_filter_push(tasks@[i as int], kf);
            t0.lemma_filter_push(tasks@[i as int], af);
        }
        let (id, finished) = &tasks[i];
        let live = is_running_id(containers, id.as_str()) && !*finished;
        if live {
            keep.push(id.clone());
            assert(keep@ =~= t0.filter(kf).push(tasks@[i as int]).map_values(fst));
        } else {
            abort.push(id.clone());
            assert(abort@ =~= t0.filter(af).push(tasks@[i as int]).map_values(fst));
        }
        i = i + 1;
    }
    assert(tasks@.take(i as int) =~= tasks@);
    let mut spawn: Vec<String> = Vec::new();
    let mut j: usize = 0;
    while j < containers.len()
        invariant
            j <= containers@.len(),
            s == containers.deep_view(),
            ids_of(spawn@) == to_spawn(s.take(j as int), ids_of(keep@)),
        decreases containers@.len() - j,
    {
        proof {
            assert(s.take(j as int + 1).drop_last() =~= s.take(j as int));
        }
        let c = &containers[j];
        if c.is_running() && !contains_str(&keep, c.id.as_str()) && !contains_str(&spawn, c.id.as_str()) {
            spawn.push(c.id.clone());
            assert(ids_of(spawn@) =~= to_spawn(s.take(j as int), ids_of(keep@)).push(c.id@));
        }
        j = j + 1;
    }
    assert(s.take(j as int) =~= s);
    StatsPlan { keep, abort, spawn }
}

/// The pieces of `s` between line feeds (one more than there are line feeds).
pub open spec fn split_lines(s: Seq<char>) -> Seq<Seq<char>>
    decreases s.len(),
{
    if s.len() == 0 {
        seq![Seq::<char>::empty()]
    } else {
        let p = split_lines(s.drop_last());
        if s.last() == '\n' {
            p.push(Seq::empty())
        } else {
            p.update(p.len() - 1, p.last().push(s.last()))
        }
    }
}

/// `p` without its trailing carriage returns.
pub open spec fn trim_cr(p: Seq<char>) -> Seq<char>
    decreases p.len(),
{
    if p.len() > 0 && p.last() == '\r' {
        trim_cr(p.drop_last())
    } else {
        p
    }
}

/// The lines kept from a list of pieces: each trimmed of trailing carriage
/// returns, empty ones dropped.
pub open spec fn kept_lines(pieces: Seq<Seq<char>>) -> Seq<Seq<char>>
    decreases pieces.len(),
{
    if pieces.len() == 0 {
        Seq::empty()
    } else {
        let rest = kept_lines(pieces.drop_last());
        let t = trim_cr(pieces.last());
        if t.len() > 0 { rest.push(t) } else { rest }
    }
}

/// `split_lines` always yields at least one piece.
pub proof fn lemma_split_lines_nonempty(s: Seq<char>)
    ensures
        split_lines(s).len() > 0,
    decreases s.len(),
{
    if s.len() > 0 {
        lemma_split_lines_nonempty(s.drop_last());
    }
}

fn trimmed_len(cur: &Vec<char>) -> (n: usize)
    ensures
        n <= cur@.len(),
        trim_cr(cur@) == cur@.take(n as int),
{
    let mut n = cur.len();
    assert(cur@.take(n as int) =~= cur@);
    while n > 0 && cur[n - 1] == '\r'
        invariant
            n <= cur@.len(),
            trim_cr(cur@) == trim_cr(cur@.take(n as int)),
        decreases n,
    {
        assert(cur@.take(n as int).drop_last() =~= cur@.take(n as int - 1));
        n = n - 1;
    }
    n
}

fn string_from_prefix(cur: &Vec<char>, n: usize) -> (s: String)
    requires
        n <= cur@.len(),
    ensures
        s@ == cur@.take(n as int),
{
    let mut s = String::new();
    let mut i: usize = 0;
    while i < n
        invariant
            i <= n,
            n <= cur@.len(),
            s@ == cur@.take(i as int),
        decreases n - i,
    {
        s.push(cur[i]);
        i = i + 1;
        assert(s@ =~= cur@.take(i as int));
    }
    s
}

/// Splits a chunk of log output into lines: at every line feed, trailing
/// carriage returns removed, empty lines dropped.
pub fn split_log_chunk(chunk: &str) -> (lines: Vec<String>)
    ensures
        ids_of(lines@) == kept_lines(split_lines(chunk@)),
{
    let chars = crate::text::chars_of(chunk);
    let ghost s = chunk@;
    let mut lines: Vec<String> = Vec::new();
    let mut cur: Vec<char> = Vec::new();
    let mut i: usize = 0;
    proof {
        assert(s.take(0) =~= Seq::<char>::empty());
        assert(split_lines(Seq::<char>::empty()).drop_last() =~= Seq::<Seq<char>>::empty());
    }
    while i < chars.len()
        invariant
            i <= chars@.len(),
            chars@ == s,
            split_lines(s.take(i as int)).len() > 0,
            cur@ == split_lines(s.take(i as int)).last(),
            ids_of(lines@) == kept_lines(split_lines(s.take(i as int)).drop_last()),
        decreases chars@.len() - i,
    {
        let ghost p = split_lines(s.take(i as int));
        proof {
            assert(s.take(i as int + 1).drop_last() =~= s.take(i as int));
            lemma_split_lines_nonempty(s.take(i as int + 1));
        }
        let c = chars[i];
        if c == '\n' {
            let n = trimmed_len(&cur);
            if n > 0 {
                let line = string_from_prefix(&cur, n);
                lines.push(line);
                assert(ids_of(lines@) =~= kept_lines(p.drop_last()).push(trim_cr(p.last())));
            }
            proof {
                let q = split_lines(s.take(i as int + 1));
                assert(q =~= p.push(Seq::empty()));
                assert(q.drop_last() =~= p);
                assert(p =~= p.drop_last().push(p.last()));
            }
            cur = Vec::new();
            assert(cur@ =~= Seq::<char>::empty());
        } else {
            cur.push(c);
            proof {
                let q = split_lines(s.take(i as int + 1));
                assert(q.drop_last() =~= p.drop_last());
            }
        }
        i = i + 1;
    }
    assert(s.take(i as int) =~= s);
    let ghost p = split_lines(s);
    let n = trimmed_len(&cur);
    if n > 0 {
        let line = string_from_prefix(&cur, n);
        lines.push(line);
        assert(ids_of(lines@) =~= kept_lines(p.drop_last()).push(trim_cr(p.last())));
    }
    assert(p =~= p.drop_last().push(p.last()));
    lines
}

/// The stream a chunk of container output came from.
#[derive(Debug, Clone, Copy, PartialEq, Eq, Structural)]
pub enum LogSource {
    StdOut,
    StdErr,
    StdIn,
    Console,
}

/// The log lines a chunk of output adds: nothing for what was written to
/// the container's stdin, otherwise the chunk split into lines (see
/// `split_log_chunk`).
pub fn chunk_lines(source: LogSource, chunk: &str) -> (lines: Vec<String>)
    ensures
        source == LogSource::StdIn ==> lines@.len() == 0,
        source != LogSource::StdIn ==> ids_of(lines@) == kept_lines(split_lines(chunk@)),
{
    match source {
        LogSource::StdIn => Vec::new(),
        _ => split_log_chunk(chunk),
    }
}

/// Where a host worker is in its connect / serve / back-off cycle.
#[derive(Debug, Clone, Copy, PartialEq, Eq, Structural)]
pub enum WorkerPhase {
    /// A connection attempt is under way.
    Connecting,
    /// Connected: polling the container list and serving commands.
    Connected,
    /// Waiting `RETRY_INTERVAL_S` before the next attempt.
    BackingOff,
    /// Shut down for good.
    Stopped,
}

/// What happened to a worker.
pub enum WorkerEvent {
    ConnectSucceeded,
    /// The connection attempt failed; the text describes the error.
    ConnectFailed(String),
    /// The poll interval elapsed.
    PollDue,
    /// Listing the containers failed; the text describes the error.
    PollFailed(String),
    /// A command arrived from the main loop.
    Command(HostCommand),
    /// Carrying out a request failed; the text describes the error.
    ServeFailed(String),
    /// The main loop dropped its end of the command channel.
    ChannelClosed,
    /// The back-off interval elapsed.
    RetryDue,
}

/// What a worker does next.
pub enum WorkerAction {
    /// Report a connection status to the main loop.
    EmitStatus(HostStatus),
    /// Build the client (see `connect_plan`) and ping the daemon.
    Connect,
    /// List the containers, refresh the stats streams and report the list.
    Poll,
    /// Carry out a daemon request.
    Serve(DaemonRequest),
    /// Tell the main loop that an action failed, with this text.
    ReportFailure(String),
    /// Abort the stats streams and the log tail of the session.
    AbortSessionTasks,
    /// Start a back-off of `RETRY_INTERVAL_S` seconds, listening for commands.
    WaitForRetry,
    /// Go on waiting out the back-off already under way.
    ResumeWait,
}

/// The phase after `event`.
pub open spec fn next_phase(phase: WorkerPhase, event: WorkerEvent) -> WorkerPhase {
    match (phase, event) {
        (WorkerPhase::Connecting, WorkerEvent::ConnectSucceeded) => WorkerPhase::Connected,
        (WorkerPhase::Connecting, WorkerEvent::ConnectFailed(_)) => WorkerPhase::BackingOff,
        (WorkerPhase::Connected, WorkerEvent::PollFailed(_)) => WorkerPhase::BackingOff,
        (WorkerPhase::Connected, WorkerEvent::Command(HostCommand::Shutdown)) => WorkerPhase::Stopped,
        (WorkerPhase::Connected, WorkerEvent::ChannelClosed) => WorkerPhase::Stopped,
        (WorkerPhase::BackingOff, WorkerEvent::Command(HostCommand::Shutdown)) => WorkerPhase::Stopped,
        (WorkerPhase::BackingOff, WorkerEvent::ChannelClosed) => WorkerPhase::Stopped,
        (WorkerPhase::BackingOff, WorkerEvent::RetryDue) => WorkerPhase::Connecting,
        _ => phase,
    }
}

/// The actions taken on `event` in `phase`.
pub open spec fn step_actions(phase: WorkerPhase, event: WorkerEvent, acts: Seq<WorkerAction>) -> bool {
    match (phase, event) {
        (WorkerPhase::Connecting, WorkerEvent::ConnectSucceeded) => {
            &&& acts.len() == 1
            &&& acts[0] matches WorkerAction::EmitStatus(HostStatus::Connected)
        },
        (WorkerPhase::Connecting, WorkerEvent::ConnectFailed(e)) => {
            &&& acts.len() == 2
            &&& acts[0] matches WorkerAction::EmitStatus(HostStatus::Unreachable(m))
                && m@ == "connection failed: "@ + e@
            &&& acts[1] is WaitForRetry
        },
        (WorkerPhase::Connected, WorkerEvent::PollDue) => acts.len() == 1 && acts[0] is Poll,
        (WorkerPhase::Connected, WorkerEvent::ServeFailed(e)) => {
            &&& acts.len() == 1
            &&& acts[0] matches WorkerAction::ReportFailure(m) && m@ == "action failed: "@ + e@
        },
        (WorkerPhase::Connected, WorkerEvent::PollFailed(e)) => {
            &&& acts.len() == 3
            &&& acts[0] is AbortSessionTasks
            &&& acts[1] matches WorkerAction::EmitStatus(HostStatus::Unreachable(m))
                && m@ == "poll failed: "@ + e@
            &&& acts[2] is WaitForRetry
        },
        (WorkerPhase::Connected, WorkerEvent::Command(HostCommand::Shutdown)) => {
            acts.len() == 1 && acts[0] is AbortSessionTasks
        },
        (WorkerPhase::Connected, WorkerEvent::ChannelClosed) => {
            acts.len() == 1 && acts[0] is AbortSessionTasks
        },
        (WorkerPhase::Connected, WorkerEvent::Command(cmd)) => {
            &&& acts.len() == 1
            &&& acts[0] matches WorkerAction::Serve(r) && request_for(cmd, r)
        },
        (WorkerPhase::BackingOff, WorkerEvent::Command(HostCommand::Shutdown)) => acts.len() == 0,
        (WorkerPhase::BackingOff, WorkerEvent::ChannelClosed) => acts.len() == 0,
        (WorkerPhase::BackingOff, WorkerEvent::RetryDue) => restart_actions(acts),
        (WorkerPhase::BackingOff, WorkerEvent::Command(_)) => acts.len() == 1 && acts[0] is ResumeWait,
        _ => acts.len() == 0,
    }
}

/// Announce `Connecting` and try to connect.
pub open spec fn restart_actions(acts: Seq<WorkerAction>) -> bool {
    &&& acts.len() == 2
    &&& acts[0] matches WorkerAction::EmitStatus(HostStatus::Connecting)
    &&& acts[1] is Connect
}

/// A worker starts by announcing `Connecting` and connecting.
pub fn worker_start() -> (r: (WorkerPhase, Vec<WorkerAction>))
    ensures
        r.0 == WorkerPhase::Connecting,
        restart_actions(r.1@),
{
    let mut acts: Vec<WorkerAction> = Vec::new();
    acts.push(WorkerAction::EmitStatus(HostStatus::Connecting));
    acts.push(WorkerAction::Connect);
    (WorkerPhase::Connecting, acts)
}

fn failure_message(prefix: &str, e: &String) -> (m: String)
    ensures
        m@ == prefix@ + e@,
{
    let mut m = String::from_str(prefix);
    m.append(e.as_str());
    m
}

/// One step of the worker's cycle: the next phase and what to do. A
/// command other than `Shutdown` that arrives while backing off cannot be
/// served: it is dropped and the wait goes on for its full interval.
pub fn worker_step(phase: WorkerPhase, event: WorkerEvent) -> (r: (WorkerPhase, Vec<WorkerAction>))
    ensures
        r.0 == next_phase(phase, event),
        step_actions(phase, event, r.1@),
{
    let mut acts: Vec<WorkerAction> = Vec::new();
    match phase {
        WorkerPhase::Connecting => match event {
            WorkerEvent::ConnectSucceeded => {
                acts.push(WorkerAction::EmitStatus(HostStatus::Connected));
                (WorkerPhase::Connected, acts)
            },
            WorkerEvent::ConnectFailed(e) => {
                let m = failure_message("connection failed: ", &e);
                acts.push(WorkerAction::EmitStatus(HostStatus::Unreachable(m)));
                acts.push(WorkerAction::WaitForRetry);
                (WorkerPhase::BackingOff, acts)
            },
            _ => (phase, acts),
        },
        WorkerPhase::Connected => match event {
            WorkerEvent::PollDue => {
                acts.push(WorkerAction::Poll);
                (phase, acts)
            },
            WorkerEvent::ServeFailed(e) => {
                let m = failure_message("action failed: ", &e);
                acts.push(WorkerAction::ReportFailure(m));
                (phase, acts)
            },
            WorkerEvent::PollFailed(e) => {
                let m = failure_message("poll failed: ", &e);
                acts.push(WorkerAction::AbortSessionTasks);
                acts.push(WorkerAction::EmitStatus(HostStatus::Unreachable(m)));
                acts.push(WorkerAction::WaitForRetry);
                (WorkerPhase::BackingOff, acts)
            },
            WorkerEvent::ChannelClosed => {
                acts.push(WorkerAction::AbortSessionTasks);
                (WorkerPhase::Stopped, acts)
            },
            WorkerEvent::Command(cmd) => match cmd {
                HostCommand::Shutdown => {
                    acts.push(WorkerAction::AbortSessionTasks);
                    (WorkerPhase::Stopped, acts)
                },
                _ => {
                    let req = plan_command(cmd);
                    acts.push(WorkerAction::Serve(req));
                    (phase, acts)
                },
            },
            _ => (phase, acts),
        },
        WorkerPhase::BackingOff => match event {
            WorkerEvent::ChannelClosed => (WorkerPhase::Stopped, acts),
            WorkerEvent::Command(HostCommand::Shutdown) => (WorkerPhase::Stopped, acts),
            WorkerEvent::RetryDue => {
                acts.push(WorkerAction::EmitStatus(HostStatus::Connecting));
                acts.push(WorkerAction::Connect);
                (WorkerPhase::Connecting, acts)
            },
            WorkerEvent::Command(_) => {
                acts.push(WorkerAction::ResumeWait);
                (phase, acts)
            },
            _ => (phase, acts),
        },
        WorkerPhase::Stopped => (phase, acts),
    }
}

} // verus!
