use std::collections::VecDeque;
use container_viz::colour::Colour;
use container_viz::container::{container_name, uptime_at, ContainerInfo, ContainerState, PortBinding, SPARKLINE_LEN};

fn container(id: &str, state: ContainerState, project: Option<&str>) -> ContainerInfo {
    ContainerInfo::from_summary(
        id.to_string(),
        format!("{id}-name"),
        "nginx:alpine".to_string(),
        state,
        "Up".to_string(),
        None,
        project.map(|p| p.to_string()),
        vec![],
    )
}

#[test]
fn state_labels_round_trip() {
    for s in [
        ContainerState::Running,
        ContainerState::Paused,
        ContainerState::Exited,
        ContainerState::Restarting,
        ContainerState::Dead,
        ContainerState::Unknown,
    ] {
        assert_eq!(ContainerState::from_label(s.label()), s);
    }
    assert_eq!(ContainerState::from_label("weird"), ContainerState::Unknown);
    assert_eq!(ContainerState::from_label("Running"), ContainerState::Unknown);
}

#[test]
fn state_colours_and_icons() {
    assert_eq!(ContainerState::Running.colour(), Colour::Green);
    assert_eq!(ContainerState::Restarting.colour(), Colour::Yellow);
    assert_eq!(ContainerState::Exited.colour(), Colour::DarkGray);
    assert_eq!(ContainerState::Dead.colour(), Colour::Red);
    assert_eq!(ContainerState::Unknown.colour(), Colour::Gray);
    assert_eq!(ContainerState::Running.icon(), "󰄬");
    assert_eq!(ContainerState::Exited.icon(), "󱗜");
}

#[test]
fn port_binding_display() {
    let p = PortBinding {
        host_ip: "0.0.0.0".to_string(),
        host_port: 80,
        container_port: 8080,
        protocol: "tcp".to_string(),
    };
    assert_eq!(p.display(), "0.0.0.0:80->8080/tcp");
}

#[test]
fn uptime_formats() {
    let mut c = container("a", ContainerState::Running, None);
    assert_eq!(c.formatted_uptime(), "—");
    c.uptime = Some(2 * 86400 + 4 * 3600 + 12 * 60 + 5);
    assert_eq!(c.formatted_uptime(), "2d 4h 12m");
    c.uptime = Some(3 * 3600 + 7 * 60);
    assert_eq!(c.formatted_uptime(), "3h 7m");
    c.uptime = Some(59);
    assert_eq!(c.formatted_uptime(), "0m");
    c.uptime = Some(86400);
    assert_eq!(c.formatted_uptime(), "1d 0h 0m");
}

#[test]
fn short_id_takes_twelve_bytes() {
    let c = container("a3f1c8d9e2b0ffee", ContainerState::Running, None);
    assert_eq!(c.short_id(), "a3f1c8d9e2b0");
    let c = container("abc", ContainerState::Running, None);
    assert_eq!(c.short_id(), "abc");
}

#[test]
fn cpu_history_is_a_ring() {
    let mut c = container("a", ContainerState::Running, None);
    for i in 0..(SPARKLINE_LEN as u64 + 5) {
        c.push_cpu_sample(i);
    }
    assert_eq!(c.cpu_percent, SPARKLINE_LEN as u64 + 4);
    let spark = c.cpu_sparkline();
    assert_eq!(spark.len(), SPARKLINE_LEN);
    assert_eq!(spark[0], 5);
    assert_eq!(*spark.last().unwrap(), SPARKLINE_LEN as u64 + 4);
}

#[test]
fn mem_history_is_a_ring() {
    let mut c = container("a", ContainerState::Running, None);
    for i in 0..(SPARKLINE_LEN as u64 + 1) {
        c.push_mem_sample(i * 10);
    }
    assert_eq!(c.mem_usage, SPARKLINE_LEN as u64 * 10);
    let spark = c.mem_sparkline();
    assert_eq!(spark.len(), SPARKLINE_LEN);
    assert_eq!(spark[0], 10);
}

#[test]
fn mem_percent_in_hundredths() {
    let mut c = container("a", ContainerState::Running, None);
    assert_eq!(c.mem_percent(), 0);
    c.mem_usage = 18;
    c.mem_limit = 512;
    assert_eq!(c.mem_percent(), 351);
    c.mem_usage = 512;
    assert_eq!(c.mem_percent(), 10000);
}

#[test]
fn running_check() {
    assert!(container("a", ContainerState::Running, None).is_running());
    assert!(!container("a", ContainerState::Paused, None).is_running());
}

#[test]
fn container_names_lose_leading_slash() {
    assert_eq!(container_name(&vec!["/nginx".to_string(), "/other".to_string()]), "nginx");
    assert_eq!(container_name(&vec!["plain".to_string()]), "plain");
    assert_eq!(container_name(&vec![]), "");
}

#[test]
fn clone_keeps_everything() {
    let mut c = container("a", ContainerState::Running, Some("web"));
    c.log_lines = VecDeque::from(vec!["x".to_string()]);
    c.push_cpu_sample(3);
    let d = c.clone();
    assert_eq!(d.id, "a");
    assert_eq!(d.compose_project.as_deref(), Some("web"));
    assert_eq!(d.log_lines, c.log_lines);
    assert_eq!(d.cpu_history, c.cpu_history);
}

#[test]
fn state_from_daemon_text() {
    assert_eq!(ContainerState::from("running"), ContainerState::Running);
    assert_eq!(ContainerState::from("exited"), ContainerState::Exited);
    assert_eq!(ContainerState::from("created"), ContainerState::Unknown);
}

#[test]
fn port_binding_display_has_no_space() {
    let p = PortBinding { host_ip: "0.0.0.0".into(), host_port: 80, container_port: 80, protocol: "tcp".into() };
    assert_eq!(p.display(), "0.0.0.0:80->80/tcp");
}

#[test]
fn uptime_from_creation_time() {
    assert_eq!(uptime_at(true, Some(1000), 4600), Some(3600));
    assert_eq!(uptime_at(false, Some(1000), 4600), None);
    assert_eq!(uptime_at(true, None, 4600), None);
    assert_eq!(uptime_at(true, Some(5000), 4600), Some(0));
    assert_eq!(uptime_at(true, Some(-5), 10), Some(10));
}
