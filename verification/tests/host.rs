use container_viz::colour::Colour;
use container_viz::container::{ContainerInfo, ContainerState};
use container_viz::host::{socket_path, ConnectionType, HostConfig, HostState, HostStatus, TlsConfig, LOG_BUFFER_CAPACITY};

fn c(id: &str, state: ContainerState, project: Option<&str>) -> ContainerInfo {
    ContainerInfo::from_summary(
        id.to_string(),
        id.to_string(),
        "img".to_string(),
        state,
        String::new(),
        None,
        project.map(|p| p.to_string()),
        vec![],
    )
}

fn host(containers: Vec<ContainerInfo>) -> HostState {
    let mut h = HostState::new(HostConfig {
        name: "homelab".to_string(),
        connection: ConnectionType::default_socket(),
    });
    h.apply_container_list(containers);
    h
}

#[test]
fn addresses_for_bollard() {
    assert_eq!(ConnectionType::default_socket().bollard_addr(), "unix:///var/run/docker.sock");
    let tcp = ConnectionType::Tcp { host: "192.168.1.100".to_string(), port: 2376, tls: None };
    assert_eq!(tcp.bollard_addr(), "tcp://192.168.1.100:2376");
    assert!(!tcp.is_local());
    assert!(ConnectionType::default_socket().is_local());
}

#[test]
fn host_display_name_and_locality() {
    let cfg = HostConfig {
        name: "nas".to_string(),
        connection: ConnectionType::Tcp { host: "192.168.1.50".to_string(), port: 2375, tls: None },
    };
    assert_eq!(cfg.display_name(), "nas (tcp://192.168.1.50:2375)");
    assert!(!cfg.is_local());
    let other = cfg.new("homelab".to_string(), ConnectionType::default_socket());
    assert_eq!(other.name, "homelab");
    assert!(other.is_local());
}

#[test]
fn tls_defaults_verify() {
    let t = TlsConfig::default();
    assert!(t.verify);
    assert!(t.ca_cert.is_none());
    assert_eq!(t.cert_path, "");
}

#[test]
fn host_status_presentation() {
    assert_eq!(HostStatus::Connecting.label(), "Connecting");
    assert_eq!(HostStatus::Connected.colour(), Colour::Green);
    assert_eq!(HostStatus::Unreachable("x".to_string()).label(), "Unreachable");
    assert_eq!(HostStatus::Unreachable("x".to_string()).colour(), Colour::Red);
    assert_eq!(HostStatus::Connected.icon(), "󰡕");
}

#[test]
fn cursor_moves_stop_at_ends() {
    let mut h = host(vec![
        c("a", ContainerState::Running, None),
        c("b", ContainerState::Exited, None),
        c("c", ContainerState::Running, None),
    ]);
    assert_eq!(h.selected, 0);
    h.prev_container();
    assert_eq!(h.selected, 0);
    h.next_container();
    h.next_container();
    h.next_container();
    assert_eq!(h.selected, 2);
    h.jump_top();
    assert_eq!(h.selected, 0);
    h.jump_bottom();
    assert_eq!(h.selected, 2);
    assert_eq!(h.selected_container().unwrap().id, "c");
    h.apply_container_list(vec![c("z", ContainerState::Running, None)]);
    assert_eq!(h.selected, 0);
}

#[test]
fn empty_host_has_no_selection() {
    let mut h = host(vec![]);
    h.next_container();
    h.jump_bottom();
    assert_eq!(h.selected, 0);
    assert!(h.selected_container().is_none());
    assert_eq!(h.total_count(), 0);
}

#[test]
fn counts_running_containers() {
    let h = host(vec![
        c("a", ContainerState::Running, None),
        c("b", ContainerState::Exited, None),
        c("c", ContainerState::Running, None),
        c("d", ContainerState::Paused, None),
    ]);
    assert_eq!(h.running_count(), 2);
    assert_eq!(h.total_count(), 4);
}

#[test]
fn stats_update_hits_matching_container() {
    let mut h = host(vec![c("a", ContainerState::Running, None), c("b", ContainerState::Running, None)]);
    h.apply_stats_update("b", 1234, 18, 7, 9);
    assert_eq!(h.containers[1].cpu_percent, 1234);
    assert_eq!(h.containers[1].mem_usage, 18);
    assert_eq!(h.containers[1].net_rx, 7);
    assert_eq!(h.containers[1].net_tx, 9);
    assert_eq!(h.containers[0].cpu_percent, 0);
    h.apply_stats_update("nope", 1, 1, 1, 1);
    assert_eq!(h.containers[0].mem_usage, 0);
}

#[test]
fn stats_updates_fill_sparklines() {
    let mut h = host(vec![c("a", ContainerState::Running, None)]);
    h.apply_stats_update("a", 100, 10, 0, 0);
    h.apply_stats_update("a", 200, 20, 0, 0);
    assert_eq!(h.containers[0].cpu_sparkline(), vec![100, 200]);
    assert_eq!(h.containers[0].mem_sparkline(), vec![10, 20]);
}

#[test]
fn log_lines_are_capped() {
    let mut h = host(vec![c("a", ContainerState::Running, None)]);
    for i in 0..(LOG_BUFFER_CAPACITY + 3) {
        h.append_log_line("a", format!("line {i}"));
    }
    let lines = &h.containers[0].log_lines;
    assert_eq!(lines.len(), LOG_BUFFER_CAPACITY);
    assert_eq!(lines.front().unwrap(), "line 3");
    assert_eq!(lines.back().unwrap(), &format!("line {}", LOG_BUFFER_CAPACITY + 2));
    h.append_log_line("missing", "x".to_string());
    assert_eq!(h.containers[0].log_lines.len(), LOG_BUFFER_CAPACITY);
}

#[test]
fn compose_groups_sorted_with_ungrouped_last() {
    let h = host(vec![
        c("w1", ContainerState::Running, Some("web")),
        c("solo", ContainerState::Running, None),
        c("d1", ContainerState::Running, Some("db")),
        c("w2", ContainerState::Exited, Some("web")),
        c("x", ContainerState::Running, Some("Zeta")),
    ]);
    let groups = h.grouped_by_compose();
    let names: Vec<&str> = groups.iter().map(|g| g.name.as_str()).collect();
    assert_eq!(names, vec!["Zeta", "db", "web", "ungrouped"]);
    let web: Vec<&str> = groups[2].containers.iter().map(|c| c.id.as_str()).collect();
    assert_eq!(web, vec!["w1", "w2"]);
    assert_eq!(groups[3].containers[0].id, "solo");
}

#[test]
fn compose_groups_of_empty_host() {
    assert!(host(vec![]).grouped_by_compose().is_empty());
}

#[test]
fn socket_uri_loses_scheme() {
    assert_eq!(socket_path("unix:///var/run/docker.sock"), "/var/run/docker.sock");
    assert_eq!(socket_path("/run/user/1000/docker.sock"), "/run/user/1000/docker.sock");
    assert_eq!(socket_path("unix:/x"), "unix:/x");
}
