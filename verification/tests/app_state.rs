use container_viz::app::AppState;
use container_viz::channels::UpdateChannel;
use container_viz::config::AppConfig;
use container_viz::container::{ContainerInfo, ContainerState};
use container_viz::host::{ConnectionType, HostConfig, HostStatus};
use container_viz::keys::{handle_key, KeyCode, KeyInput};
use container_viz::messages::{HostCommand, HostUpdate};
use container_viz::ui_state::{AppMode, MessageLevel, PendingAction};
use tokio::sync::mpsc;

fn config(n: usize, safe_mode: bool) -> AppConfig {
    let mut cfg = AppConfig::default();
    cfg.safe_mode = safe_mode;
    for i in 0..n {
        cfg.add_host(HostConfig { name: format!("h{i}"), connection: ConnectionType::default_socket() });
    }
    cfg
}

fn state(n: usize, safe_mode: bool) -> (AppState, Vec<mpsc::Receiver<HostCommand>>) {
    let mut txs = Vec::new();
    let mut rxs = Vec::new();
    for _ in 0..n {
        let (tx, rx) = mpsc::channel(8);
        txs.push(tx);
        rxs.push(rx);
    }
    (AppState::new(config(n, safe_mode), txs), rxs)
}

fn c(id: &str, state: ContainerState) -> ContainerInfo {
    ContainerInfo::from_summary(id.into(), id.into(), "img".into(), state, String::new(), None, None, vec![])
}

fn key(ch: char) -> KeyInput {
    KeyInput { code: KeyCode::Char(ch), ctrl: false }
}

#[test]
fn new_state_follows_config() {
    let (s, _rx) = state(3, true);
    assert_eq!(s.hosts.len(), 3);
    assert_eq!(s.hosts[1].config.name, "h1");
    assert_eq!(s.hosts[1].status, HostStatus::Connecting);
    assert_eq!(s.active_tab, 0);
    assert_eq!(s.mode, AppMode::Normal);
    assert!(s.safe_mode);
    assert!(s.log_follow);
    assert!(!s.show_details);
    assert!(s.pending_action.is_none());
    assert!(s.status_message.is_none());
}

#[test]
fn tabs_wrap_both_ways() {
    let (mut s, _rx) = state(3, true);
    s.prev_tab();
    assert_eq!(s.active_tab, 2);
    s.next_tab();
    assert_eq!(s.active_tab, 0);
    s.next_tab();
    s.prev_tab();
    assert_eq!(s.active_tab, 0);
    let (mut empty, _rx) = state(0, true);
    empty.next_tab();
    empty.prev_tab();
    assert_eq!(empty.active_tab, 0);
}

#[test]
fn updates_reach_their_host() {
    let (mut s, _rx) = state(2, true);
    s.apply_update(1, HostUpdate::ContainerList(vec![c("a", ContainerState::Running)]));
    assert_eq!(s.hosts[1].containers.len(), 1);
    assert!(s.hosts[0].containers.is_empty());
    s.apply_update(1, HostUpdate::StatsUpdate { id: "a".into(), cpu: 250, mem: 4, net_rx: 1, net_tx: 2 });
    assert_eq!(s.hosts[1].containers[0].cpu_percent, 250);
    s.apply_update(1, HostUpdate::LogLine { id: "a".into(), line: "hello".into() });
    assert_eq!(s.hosts[1].containers[0].log_lines.len(), 1);
    s.apply_update(0, HostUpdate::StatusChange(HostStatus::Connected));
    assert_eq!(s.hosts[0].status, HostStatus::Connected);
}

#[test]
fn update_for_unknown_host_warns() {
    let (mut s, _rx) = state(1, true);
    s.apply_update(7, HostUpdate::StatusChange(HostStatus::Connected));
    let m = s.status_message.as_ref().unwrap();
    assert_eq!(m.text, "Received update for unknown host index 7");
    assert_eq!(m.level, MessageLevel::Warn);
    assert_eq!(m.ttl_ticks, 3);
}

#[test]
fn safe_mode_holds_stop_and_restart() {
    let (mut s, mut rx) = state(1, true);
    s.dispatch_command(0, HostCommand::StopContainer("a".into()));
    let p = s.pending_action.as_ref().unwrap();
    assert_eq!(p.label, "Stop container");
    assert_eq!(p.host_index, 0);
    assert!(rx[0].try_recv().is_err());
    s.confirm_pending_action();
    assert!(s.pending_action.is_none());
    assert!(matches!(rx[0].try_recv(), Ok(HostCommand::StopContainer(id)) if id == "a"));
}

#[test]
fn remove_always_asks() {
    let (mut s, mut rx) = state(1, false);
    s.dispatch_command(0, HostCommand::RemoveContainer("a".into()));
    assert!(s.pending_action.is_some());
    assert!(rx[0].try_recv().is_err());
    s.clear_pending_action();
    assert!(s.pending_action.is_none());
    assert!(rx[0].try_recv().is_err());
}

#[test]
fn safe_mode_off_sends_stop_directly() {
    let (mut s, mut rx) = state(1, false);
    s.dispatch_command(0, HostCommand::StopContainer("a".into()));
    assert!(s.pending_action.is_none());
    assert!(matches!(rx[0].try_recv(), Ok(HostCommand::StopContainer(_))));
    s.dispatch_command(0, HostCommand::StartContainer("a".into()));
    assert!(matches!(rx[0].try_recv(), Ok(HostCommand::StartContainer(_))));
    // A host without a channel simply gets nothing.
    s.dispatch_command(5, HostCommand::StartContainer("a".into()));
}

#[test]
fn status_message_lives_three_ticks() {
    let (mut s, _rx) = state(1, true);
    s.set_status("hello".into(), MessageLevel::Info);
    s.tick_status();
    s.tick_status();
    assert_eq!(s.status_message.as_ref().unwrap().ttl_ticks, 1);
    s.tick_status();
    assert!(s.status_message.is_none());
    s.tick_status();
    assert!(s.status_message.is_none());
}

#[test]
fn toggles_flip_back() {
    let (mut s, _rx) = state(1, true);
    s.toggle_safe_mode();
    assert!(!s.safe_mode);
    assert_eq!(s.status_message.as_ref().unwrap().text, "Safe mode OFF");
    s.toggle_safe_mode();
    assert!(s.safe_mode);
    assert_eq!(s.status_message.as_ref().unwrap().text, "Safe mode ON");
    s.toggle_detail();
    s.toggle_detail();
    assert!(!s.show_details);
}

#[test]
fn leaving_command_mode_clears_query() {
    let (mut s, _rx) = state(1, true);
    s.set_mode(AppMode::Command);
    s.command_query = "sto".into();
    s.set_mode(AppMode::Normal);
    assert_eq!(s.mode, AppMode::Normal);
    assert_eq!(s.command_query, "");
    s.command_query = "kept".into();
    s.set_mode(AppMode::Help);
    assert_eq!(s.command_query, "kept");
}

#[test]
fn set_and_clear_pending() {
    let (mut s, _rx) = state(1, true);
    s.set_pending_action(PendingAction { label: "x".into(), command: HostCommand::Shutdown, host_index: 0 });
    assert!(s.pending_action.is_some());
    s.clear_pending_action();
    assert!(s.pending_action.is_none());
}

#[test]
fn keys_quit_and_navigate() {
    let (mut s, _rx) = state(2, true);
    s.apply_update(0, HostUpdate::ContainerList(vec![c("a", ContainerState::Running), c("b", ContainerState::Running)]));
    assert!(!handle_key(&mut s, key('j')));
    assert_eq!(s.hosts[0].selected, 1);
    assert!(!handle_key(&mut s, key('k')));
    assert_eq!(s.hosts[0].selected, 0);
    assert!(!handle_key(&mut s, key('G')));
    assert_eq!(s.hosts[0].selected, 1);
    assert!(!handle_key(&mut s, key('g')));
    assert_eq!(s.hosts[0].selected, 0);
    assert!(!handle_key(&mut s, KeyInput { code: KeyCode::Tab, ctrl: false }));
    assert_eq!(s.active_tab, 1);
    assert!(!handle_key(&mut s, KeyInput { code: KeyCode::BackTab, ctrl: false }));
    assert_eq!(s.active_tab, 0);
    assert!(!handle_key(&mut s, key('d')));
    assert!(s.show_details);
    assert!(handle_key(&mut s, key('q')));
    assert!(handle_key(&mut s, KeyInput { code: KeyCode::Char('c'), ctrl: true }));
}

#[test]
fn keys_switch_modes() {
    let (mut s, _rx) = state(1, true);
    handle_key(&mut s, key('l'));
    assert_eq!(s.mode, AppMode::Logs);
    assert!(!handle_key(&mut s, key('q')));
    assert_eq!(s.mode, AppMode::Logs);
    handle_key(&mut s, KeyInput { code: KeyCode::Esc, ctrl: false });
    assert_eq!(s.mode, AppMode::Normal);
    handle_key(&mut s, key(':'));
    assert_eq!(s.mode, AppMode::Command);
    handle_key(&mut s, KeyInput { code: KeyCode::Esc, ctrl: false });
    handle_key(&mut s, key('?'));
    assert_eq!(s.mode, AppMode::Help);
    handle_key(&mut s, KeyInput { code: KeyCode::Esc, ctrl: false });
    handle_key(&mut s, key('H'));
    assert_eq!(s.mode, AppMode::HostManager);
    handle_key(&mut s, KeyInput { code: KeyCode::Esc, ctrl: false });
    handle_key(&mut s, key('m'));
    assert!(!s.safe_mode);
}

#[test]
fn confirmation_dialog_takes_keys() {
    let (mut s, mut rx) = state(1, true);
    s.apply_update(0, HostUpdate::ContainerList(vec![c("a", ContainerState::Running)]));
    handle_key(&mut s, key('S'));
    assert!(s.pending_action.is_some());
    // Any key other than y dismisses, even q.
    assert!(!handle_key(&mut s, key('q')));
    assert!(s.pending_action.is_none());
    assert!(rx[0].try_recv().is_err());
    handle_key(&mut s, key('x'));
    assert!(matches!(s.pending_action.as_ref().unwrap().command, HostCommand::RemoveContainer(_)));
    assert!(!handle_key(&mut s, key('y')));
    assert!(s.pending_action.is_none());
    assert!(matches!(rx[0].try_recv(), Ok(HostCommand::RemoveContainer(id)) if id == "a"));
    handle_key(&mut s, key('s'));
    assert!(s.pending_action.is_none());
    assert!(matches!(rx[0].try_recv(), Ok(HostCommand::StartContainer(_))));
}

#[test]
fn actions_without_containers_do_nothing() {
    let (mut s, mut rx) = state(1, true);
    handle_key(&mut s, key('x'));
    assert!(s.pending_action.is_none());
    assert!(rx[0].try_recv().is_err());
}

#[test]
fn tick_drains_queued_updates() {
    let (mut s, _rx) = state(2, true);
    let (tx0, rx0) = mpsc::channel(8);
    let (tx1, rx1) = mpsc::channel(8);
    tx0.try_send(HostUpdate::StatusChange(HostStatus::Connected)).unwrap();
    tx0.try_send(HostUpdate::ContainerList(vec![c("a", ContainerState::Running)])).unwrap();
    tx1.try_send(HostUpdate::StatusChange(HostStatus::Unreachable("down".into()))).unwrap();
    let mut rxs = vec![UpdateChannel::new(rx0), UpdateChannel::new(rx1)];
    s.set_status("note".into(), MessageLevel::Info);
    s.on_tick(&mut rxs);
    assert_eq!(s.hosts[0].status, HostStatus::Connected);
    assert_eq!(s.hosts[0].containers.len(), 1);
    assert_eq!(s.hosts[1].status, HostStatus::Unreachable("down".into()));
    assert_eq!(s.status_message.as_ref().unwrap().ttl_ticks, 2);
}

#[test]
fn pull_key_pulls_the_image() {
    let (mut s, mut rx) = state(1, true);
    s.apply_update(0, HostUpdate::ContainerList(vec![c("a", ContainerState::Running)]));
    assert!(!handle_key(&mut s, key('p')));
    assert!(s.pending_action.is_none());
    assert!(matches!(rx[0].try_recv(), Ok(HostCommand::PullImage(image)) if image == "img"));
}

fn special(code: KeyCode) -> KeyInput {
    KeyInput { code, ctrl: false }
}

#[test]
fn logs_mode_keys() {
    let (mut s, _rx) = state(1, true);
    s.set_mode(AppMode::Logs);
    assert!(s.log_follow);
    handle_key(&mut s, key('f'));
    assert!(!s.log_follow);
    handle_key(&mut s, key('f'));
    assert!(s.log_follow);
    handle_key(&mut s, key('j'));
    handle_key(&mut s, key('j'));
    assert_eq!(s.log_scroll, 2);
    assert!(!s.log_follow);
    handle_key(&mut s, key('k'));
    assert_eq!(s.log_scroll, 1);
    handle_key(&mut s, key('t'));
    assert!(s.log_timestamps);
    handle_key(&mut s, key('/'));
    assert!(s.filter_editing);
    handle_key(&mut s, key('e'));
    handle_key(&mut s, key('r'));
    handle_key(&mut s, key('x'));
    handle_key(&mut s, special(KeyCode::Backspace));
    assert_eq!(s.log_filter.as_deref(), Some("er"));
    handle_key(&mut s, special(KeyCode::Enter));
    assert!(!s.filter_editing);
    assert_eq!(s.mode, AppMode::Logs);
    handle_key(&mut s, special(KeyCode::Esc));
    assert_eq!(s.mode, AppMode::Normal);
}

#[test]
fn palette_query_is_typed() {
    let (mut s, _rx) = state(1, true);
    handle_key(&mut s, key(':'));
    handle_key(&mut s, key('s'));
    handle_key(&mut s, key('t'));
    handle_key(&mut s, key('q'));
    handle_key(&mut s, special(KeyCode::Backspace));
    assert_eq!(s.command_query, "st");
    assert_eq!(s.mode, AppMode::Command);
    handle_key(&mut s, special(KeyCode::Esc));
    assert_eq!(s.mode, AppMode::Normal);
    assert_eq!(s.command_query, "");
}

#[test]
fn question_mark_closes_help() {
    let (mut s, _rx) = state(1, true);
    handle_key(&mut s, key('?'));
    assert_eq!(s.mode, AppMode::Help);
    handle_key(&mut s, key('?'));
    assert_eq!(s.mode, AppMode::Normal);
}

#[test]
fn opening_logs_tails_the_selected_container() {
    let (mut s, mut rx) = state(1, true);
    s.apply_update(0, HostUpdate::ContainerList(vec![c("a", ContainerState::Running), c("b", ContainerState::Running)]));
    handle_key(&mut s, key('j'));
    handle_key(&mut s, key('l'));
    assert_eq!(s.mode, AppMode::Logs);
    assert!(matches!(rx[0].try_recv(), Ok(HostCommand::TailLogs { id, lines: 100 }) if id == "b"));
    s.apply_update(0, HostUpdate::LogLine { id: "b".into(), line: "hello".into() });
    s.apply_update(0, HostUpdate::LogLine { id: "a".into(), line: "other".into() });
    assert_eq!(s.log_buffer.len(), 1);
    assert_eq!(s.log_buffer[0], "hello");
}

#[test]
fn failed_action_shows_an_error() {
    let (mut s, _rx) = state(1, true);
    s.apply_update(0, HostUpdate::ActionFailed("action failed: boom".into()));
    let m = s.status_message.as_ref().unwrap();
    assert_eq!(m.text, "action failed: boom");
    assert_eq!(m.level, MessageLevel::Error);
    assert_eq!(m.ttl_ticks, 3);
}

#[test]
fn enter_runs_the_top_palette_entry() {
    let (mut s, mut rx) = state(1, false);
    s.apply_update(0, HostUpdate::ContainerList(vec![c("a", ContainerState::Running)]));
    handle_key(&mut s, key(':'));
    handle_key(&mut s, key('r'));
    handle_key(&mut s, key('e'));
    handle_key(&mut s, key('s'));
    handle_key(&mut s, special(KeyCode::Enter));
    assert_eq!(s.mode, AppMode::Normal);
    assert_eq!(s.command_query, "");
    assert!(matches!(rx[0].try_recv(), Ok(HostCommand::RestartContainer(id)) if id == "a"));
    // Removal from the palette still asks first.
    handle_key(&mut s, key(':'));
    handle_key(&mut s, key('r'));
    handle_key(&mut s, key('m'));
    handle_key(&mut s, special(KeyCode::Enter));
    assert!(matches!(s.pending_action.as_ref().unwrap().command, HostCommand::RemoveContainer(_)));
}

#[test]
fn commands_reach_their_own_host() {
    let (mut s, mut rx) = state(3, false);
    s.dispatch_command(1, HostCommand::StartContainer("b".into()));
    s.dispatch_command(2, HostCommand::StartContainer("c".into()));
    assert!(rx[0].try_recv().is_err());
    assert!(matches!(rx[1].try_recv(), Ok(HostCommand::StartContainer(id)) if id == "b"));
    assert!(matches!(rx[2].try_recv(), Ok(HostCommand::StartContainer(id)) if id == "c"));
}

#[test]
fn idle_tick_then_busy_tick() {
    let (mut s, _rx) = state(1, true);
    let (tx0, rx0) = mpsc::channel(8);
    let mut rxs = vec![UpdateChannel::new(rx0)];
    s.on_tick(&mut rxs);
    assert_eq!(s.hosts[0].status, HostStatus::Connecting);
    tx0.try_send(HostUpdate::StatusChange(HostStatus::Connected)).unwrap();
    s.on_tick(&mut rxs);
    assert_eq!(s.hosts[0].status, HostStatus::Connected);
}
