use std::collections::VecDeque;
use container_viz::colour::Colour;
use container_viz::container::{ContainerInfo, ContainerState, PortBinding};
use container_viz::host::{ConnectionType, HostConfig, HostState};
use container_viz::messages::HostCommand;
use container_viz::palette::{all_actions, filtered_actions, fuzzy_score, matched_count, palette_matches};
use container_viz::ui_state::AppMode;
use container_viz::view::{
    apply_filter, bindings_for_mode, format_ports, highlight_filter, log_scroll_offset, mode_colour, mode_label,
    mode_name, safe_mode_indicator,
};

fn host_with(state: ContainerState) -> HostState {
    let mut h = HostState::new(HostConfig { name: "h".into(), connection: ConnectionType::default_socket() });
    h.apply_container_list(vec![ContainerInfo::from_summary(
        "abc".into(),
        "web".into(),
        "img".into(),
        state,
        String::new(),
        None,
        None,
        vec![],
    )]);
    h
}

#[test]
fn mode_texts() {
    assert_eq!(mode_label(AppMode::HostManager), "HOST");
    assert_eq!(mode_label(AppMode::Normal), "NORMAL");
    assert_eq!(mode_colour(AppMode::Logs), Colour::Cyan);
    assert_eq!(mode_name(AppMode::Help), "Normal");
    assert_eq!(mode_name(AppMode::HostManager), "Host Manager");
    assert_eq!(safe_mode_indicator(true), ("safe mode ON", Colour::Green));
    assert_eq!(safe_mode_indicator(false), ("safe mode OFF", Colour::Red));
}

#[test]
fn help_tables() {
    let logs = bindings_for_mode(AppMode::Logs);
    assert_eq!(logs.len(), 5);
    assert_eq!(logs[4].key, "Esc");
    let normal = bindings_for_mode(AppMode::Help);
    assert_eq!(normal.len(), 12);
    assert_eq!(normal[11].action, "Quit");
}

#[test]
fn ports_listing() {
    assert_eq!(format_ports(&vec![]), "—");
    let p = |port: u16| PortBinding { host_ip: "0.0.0.0".into(), host_port: port, container_port: 80, protocol: "tcp".into() };
    assert_eq!(format_ports(&vec![p(8080), p(8443)]), "0.0.0.0:8080->80/tcp, 0.0.0.0:8443->80/tcp");
}

#[test]
fn log_filtering() {
    let lines: VecDeque<String> = vec!["GET /health 200", "POST /api 500", "GET /api 200"].into_iter().map(String::from).collect();
    assert_eq!(apply_filter(&lines, Some("api")), vec!["POST /api 500", "GET /api 200"]);
    assert_eq!(apply_filter(&lines, Some("")).len(), 3);
    assert_eq!(apply_filter(&lines, None).len(), 3);
    assert!(apply_filter(&lines, Some("nope")).is_empty());
}

#[test]
fn match_highlighting() {
    let runs: Vec<(String, bool)> = highlight_filter("aXbXX", Some("X")).into_iter().map(|s| (s.text, s.highlighted)).collect();
    assert_eq!(
        runs,
        vec![
            ("a".to_string(), false),
            ("X".to_string(), true),
            ("b".to_string(), false),
            ("X".to_string(), true),
            ("X".to_string(), true),
        ]
    );
    let plain: Vec<(String, bool)> = highlight_filter("abc", None).into_iter().map(|s| (s.text, s.highlighted)).collect();
    assert_eq!(plain, vec![("abc".to_string(), false)]);
    let overlap: Vec<(String, bool)> = highlight_filter("aaa", Some("aa")).into_iter().map(|s| (s.text, s.highlighted)).collect();
    assert_eq!(overlap, vec![("aa".to_string(), true), ("a".to_string(), false)]);
    assert!(highlight_filter("", Some("x")).is_empty());
}

#[test]
fn log_scrolling() {
    assert_eq!(log_scroll_offset(true, 100, 12, 3), 90);
    assert_eq!(log_scroll_offset(true, 5, 12, 3), 0);
    assert_eq!(log_scroll_offset(false, 100, 12, 3), 3);
    assert_eq!(log_scroll_offset(true, 65536 + 20, 1, 0), 65535);
    assert_eq!(log_scroll_offset(true, 70000, 12, 0), 65525);
}

#[test]
fn palette_for_running_container() {
    let h = host_with(ContainerState::Running);
    let all = all_actions(&h);
    assert_eq!(all.len(), 6);
    assert!(!all[0].available);
    assert!(all[1].available);
    assert!(matches!(&all[5].command, HostCommand::PullImage(image) if image == "img"));
    let shown: Vec<String> = filtered_actions("", &h).into_iter().map(|a| a.label).collect();
    assert_eq!(shown, vec!["Stop", "Restart", "Remove", "Exec", "Pull"]);
    let shown: Vec<String> = filtered_actions("re", &h).into_iter().map(|a| a.label).collect();
    assert_eq!(shown, vec!["Restart", "Remove"]);
}

#[test]
fn palette_for_stopped_container() {
    let h = host_with(ContainerState::Exited);
    let shown: Vec<String> = palette_matches("st", &h).unwrap().into_iter().map(|a| a.label).collect();
    assert_eq!(shown, vec!["Start"]);
    let empty = HostState::new(HostConfig { name: "h".into(), connection: ConnectionType::default_socket() });
    assert!(all_actions(&empty).is_empty());
}

#[test]
fn palette_matching_ignores_case() {
    // Upper-case queries still match the mixed-case labels.
    assert_eq!(matched_count("ST", "Start"), 2);
    assert_eq!(matched_count("sx", "Start"), 1);
    let h = host_with(ContainerState::Running);
    let shown: Vec<String> = filtered_actions("PULL", &h).into_iter().map(|a| a.label).collect();
    assert_eq!(shown, vec!["Pull"]);
}

#[test]
fn adjacent_matches_score_higher() {
    assert_eq!(fuzzy_score("re", "restart"), 4);
    assert_eq!(fuzzy_score("rs", "restart"), 3);
    assert_eq!(fuzzy_score("rst", "restart"), 5);
    assert_eq!(fuzzy_score("", "restart"), 1);
    assert_eq!(fuzzy_score("xz", "restart"), 0);
}
