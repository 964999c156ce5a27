use container_viz::container::{ContainerInfo, ContainerState};
use container_viz::host::{ConnectionType, HostConfig, HostStatus, TlsConfig};
use container_viz::messages::HostCommand;
use container_viz::worker::{
    chunk_lines, connect_plan, join_path, needs_new_tail, plan_command, plan_stats, split_log_chunk, worker_start,
    worker_step, ConnectPlan, DaemonRequest, LogSource, WorkerAction, WorkerEvent, WorkerPhase,
};

fn c(id: &str, state: ContainerState) -> ContainerInfo {
    ContainerInfo::from_summary(id.into(), id.into(), "img".into(), state, String::new(), None, None, vec![])
}

fn tcp(tls: Option<TlsConfig>) -> HostConfig {
    HostConfig {
        name: "vps".into(),
        connection: ConnectionType::Tcp { host: "192.168.1.100".into(), port: 2376, tls },
    }
}

#[test]
fn connect_plans() {
    let unix = HostConfig { name: "l".into(), connection: ConnectionType::default_socket() };
    assert!(matches!(connect_plan(&unix), ConnectPlan::Unix { path } if path == "/var/run/docker.sock"));
    assert!(matches!(connect_plan(&tcp(None)), ConnectPlan::Http { addr } if addr == "tcp://192.168.1.100:2376"));
    let tls = TlsConfig { cert_path: "/certs/vps".into(), ca_cert: None, verify: true };
    match connect_plan(&tcp(Some(tls))) {
        ConnectPlan::Tls { addr, key, cert, ca } => {
            assert_eq!(addr, "tcp://192.168.1.100:2376");
            assert_eq!(key, "/certs/vps/key.pem");
            assert_eq!(cert, "/certs/vps/cert.pem");
            assert_eq!(ca, "/certs/vps/ca.pem");
        }
        _ => panic!("expected a TLS plan"),
    }
    let tls = TlsConfig { cert_path: "/certs/".into(), ca_cert: Some("/etc/ca.pem".into()), verify: true };
    match connect_plan(&tcp(Some(tls))) {
        ConnectPlan::Tls { key, ca, .. } => {
            assert_eq!(key, "/certs/key.pem");
            assert_eq!(ca, "/etc/ca.pem");
        }
        _ => panic!("expected a TLS plan"),
    }
}

#[test]
fn path_joining() {
    assert_eq!(join_path("", "ca.pem"), "ca.pem");
    assert_eq!(join_path("a", "ca.pem"), "a/ca.pem");
    assert_eq!(join_path("a/", "ca.pem"), "a/ca.pem");
}

#[test]
fn commands_become_requests() {
    assert!(matches!(plan_command(HostCommand::StopContainer("a".into())), DaemonRequest::Stop { id, timeout_s: 10 } if id == "a"));
    assert!(matches!(plan_command(HostCommand::RemoveContainer("a".into())), DaemonRequest::Remove { force: true, .. }));
    assert!(matches!(plan_command(HostCommand::PullImage("nginx".into())), DaemonRequest::Pull { image } if image == "nginx"));
    assert!(matches!(plan_command(HostCommand::TailLogs { id: "a".into(), lines: 100 }), DaemonRequest::TailLogs { follow: true, stdout: true, stderr: true, timestamps: false, ref tail, .. } if tail == "100"));
    assert!(matches!(plan_command(HostCommand::ExecShell("a".into())),
        DaemonRequest::Refuse { reason } if reason == "ExecShell must be handled by the UI layer"));
    assert!(matches!(plan_command(HostCommand::Shutdown), DaemonRequest::Shutdown));
}

#[test]
fn log_tail_restarts_only_when_needed() {
    assert!(needs_new_tail(&None, "a"));
    assert!(!needs_new_tail(&Some(("a".into(), false)), "a"));
    assert!(needs_new_tail(&Some(("a".into(), true)), "a"));
    assert!(needs_new_tail(&Some(("b".into(), false)), "a"));
}

#[test]
fn stats_streams_follow_running_containers() {
    let cs = vec![
        c("a", ContainerState::Running),
        c("b", ContainerState::Exited),
        c("c", ContainerState::Running),
        c("c", ContainerState::Running),
        c("d", ContainerState::Running),
    ];
    let tasks = vec![("a".to_string(), false), ("b".to_string(), false), ("d".to_string(), true), ("gone".to_string(), false)];
    let plan = plan_stats(&cs, &tasks);
    assert_eq!(plan.keep, vec!["a".to_string()]);
    assert_eq!(plan.abort, vec!["b".to_string(), "d".to_string(), "gone".to_string()]);
    assert_eq!(plan.spawn, vec!["c".to_string(), "d".to_string()]);
}

#[test]
fn log_chunks_split_into_lines() {
    assert_eq!(split_log_chunk("one\r\ntwo\n\nthree\r\r"), vec!["one", "two", "three"]);
    assert_eq!(split_log_chunk(""), Vec::<String>::new());
    assert_eq!(split_log_chunk("\n\r\n"), Vec::<String>::new());
    assert_eq!(split_log_chunk("a\rb"), vec!["a\rb"]);
}

#[test]
fn worker_cycle() {
    let (phase, acts) = worker_start();
    assert_eq!(phase, WorkerPhase::Connecting);
    assert!(matches!(acts[0], WorkerAction::EmitStatus(HostStatus::Connecting)));
    assert!(matches!(acts[1], WorkerAction::Connect));

    let (phase, acts) = worker_step(phase, WorkerEvent::ConnectFailed("refused".into()));
    assert_eq!(phase, WorkerPhase::BackingOff);
    assert!(matches!(&acts[0], WorkerAction::EmitStatus(HostStatus::Unreachable(m)) if m == "connection failed: refused"));
    assert!(matches!(acts[1], WorkerAction::WaitForRetry));

    let (phase, acts) = worker_step(phase, WorkerEvent::RetryDue);
    assert_eq!(phase, WorkerPhase::Connecting);
    assert_eq!(acts.len(), 2);

    let (phase, _) = worker_step(phase, WorkerEvent::ConnectSucceeded);
    assert_eq!(phase, WorkerPhase::Connected);
    let (phase, acts) = worker_step(phase, WorkerEvent::PollDue);
    assert!(matches!(acts[0], WorkerAction::Poll));
    let (phase, acts) = worker_step(phase, WorkerEvent::Command(HostCommand::StartContainer("a".into())));
    assert!(matches!(&acts[0], WorkerAction::Serve(DaemonRequest::Start { id }) if id == "a"));
    let (phase, acts) = worker_step(phase, WorkerEvent::PollFailed("timeout".into()));
    assert_eq!(phase, WorkerPhase::BackingOff);
    assert!(matches!(acts[0], WorkerAction::AbortSessionTasks));
    assert!(matches!(&acts[1], WorkerAction::EmitStatus(HostStatus::Unreachable(m)) if m == "poll failed: timeout"));
    let (phase, acts) = worker_step(phase, WorkerEvent::Command(HostCommand::Shutdown));
    assert_eq!(phase, WorkerPhase::Stopped);
    assert!(acts.is_empty());
    let (phase, acts) = worker_step(phase, WorkerEvent::RetryDue);
    assert_eq!(phase, WorkerPhase::Stopped);
    assert!(acts.is_empty());
}

#[test]
fn command_during_backoff_is_dropped() {
    let (phase, acts) = worker_step(WorkerPhase::BackingOff, WorkerEvent::Command(HostCommand::StartContainer("a".into())));
    assert_eq!(phase, WorkerPhase::BackingOff);
    assert_eq!(acts.len(), 1);
    assert!(matches!(acts[0], WorkerAction::ResumeWait));
    let (phase, acts) = worker_step(WorkerPhase::Connected, WorkerEvent::ChannelClosed);
    assert_eq!(phase, WorkerPhase::Stopped);
    assert!(matches!(acts[0], WorkerAction::AbortSessionTasks));
}

#[test]
fn stdin_chunks_add_no_lines() {
    assert!(chunk_lines(LogSource::StdIn, "typed\n").is_empty());
    assert_eq!(chunk_lines(LogSource::StdOut, "a\r\n\nb\n"), vec!["a".to_string(), "b".to_string()]);
    assert_eq!(chunk_lines(LogSource::StdErr, "oops"), vec!["oops".to_string()]);
}

#[test]
fn failed_request_is_reported_and_session_goes_on() {
    let (phase, acts) = worker_step(WorkerPhase::Connected, WorkerEvent::ServeFailed("no such container".into()));
    assert_eq!(phase, WorkerPhase::Connected);
    assert_eq!(acts.len(), 1);
    assert!(matches!(&acts[0], WorkerAction::ReportFailure(m) if m == "action failed: no such container"));
}
