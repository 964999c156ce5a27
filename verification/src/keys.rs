//! Keyboard handling: the key bindings of each mode and what a key press
//! does to the application state.
use std::collections::VecDeque;
use vstd::prelude::*;
use crate::app::{handed, next_tab_index, prev_tab_index, AppState};
use crate::host::HostState;
use crate::container::ContainerState;
use crate::messages::HostCommand;
use crate::palette::{entries, entry_view, palette_for, palette_matches, palette_scorable, ranked};
use crate::ui_state::{AppMode, MessageLevel, STATUS_TTL_TICKS};

verus! {

/// A key as the event loop reports it.
#[derive(Debug, Clone, Copy, PartialEq, Eq, Structural)]
pub enum KeyCode {
    Char(char),
    Tab,
    BackTab,
    Esc,
    Enter,
    Backspace,
    Other,
}

/// A key press: the key and whether Control was held.
#[derive(Debug, Clone, Copy, PartialEq, Eq, Structural)]
pub struct KeyInput {
    pub code: KeyCode,
    pub ctrl: bool,
}

/// A command about the selected container.
#[derive(Debug, Clone, Copy, PartialEq, Eq, Structural)]
pub enum ContainerAction {
    Start,
    Stop,
    Restart,
    Remove,
    Exec,
    Pull,
}

/// Movements of the container cursor.
#[derive(Debug, Clone, Copy, PartialEq, Eq, Structural)]
pub enum CursorMove {
    Down,
    Up,
    Top,
    Bottom,
}

/// What a key does in Normal mode.
#[derive(Debug, Clone, Copy, PartialEq, Eq, Structural)]
pub enum NormalBinding {
    Quit,
    Cursor(CursorMove),
    NextTab,
    PrevTab,
    ToggleDetail,
    /// Enter Logs mode and start tailing the selected container.
    OpenLogs,
    EnterMode(AppMode),
    ToggleSafeMode,
    Action(ContainerAction),
}

impl ContainerAction {
    pub open spec fn spec_command(self, id: String, image: String) -> HostCommand {
        match self {
            ContainerAction::Start => HostCommand::StartContainer(id),
            ContainerAction::Stop => HostCommand::StopContainer(id),
            ContainerAction::Restart => HostCommand::RestartContainer(id),
            ContainerAction::Remove => HostCommand::RemoveContainer(id),
            ContainerAction::Exec => HostCommand::ExecShell(id),
            ContainerAction::Pull => HostCommand::PullImage(image),
        }
    }

    /// The command this action sends for container `id`, whose image is
    /// `image`: pulling fetches the image, everything else acts on the id.
    pub fn command(&self, id: String, image: String) -> (c: HostCommand)
        ensures
            c == self.spec_command(id, image),
    {
        match self {
            ContainerAction::Start => HostCommand::StartContainer(id),
            ContainerAction::Stop => HostCommand::StopContainer(id),
            ContainerAction::Restart => HostCommand::RestartContainer(id),
            ContainerAction::Remove => HostCommand::RemoveContainer(id),
            ContainerAction::Exec => HostCommand::ExecShell(id),
            ContainerAction::Pull => HostCommand::PullImage(image),
        }
    }
}

/// The Normal-mode key table.
pub open spec fn spec_normal_binding(code: KeyCode) -> Option<NormalBinding> {
    match code {
        KeyCode::Char(c) => if c == 'q' {
            Some(NormalBinding::Quit)
        } else if c == 'j' {
            Some(NormalBinding::Cursor(CursorMove::Down))
        } else if c == 'k' {
            Some(NormalBinding::Cursor(CursorMove::Up))
        } else if c == 'g' {
            Some(NormalBinding::Cursor(CursorMove::Top))
        } else if c == 'G' {
            Some(NormalBinding::Cursor(CursorMove::Bottom))
        } else if c == 'd' {
            Some(NormalBinding::ToggleDetail)
        } else if c == 'l' {
            Some(NormalBinding::OpenLogs)
        } else if c == 'H' {
            Some(NormalBinding::EnterMode(AppMode::HostManager))
        } else if c == '?' {
            Some(NormalBinding::EnterMode(AppMode::Help))
        } else if c == ':' {
            Some(NormalBinding::EnterMode(AppMode::Command))
        } else if c == 'm' {
            Some(NormalBinding::ToggleSafeMode)
        } else if c == 's' {
            Some(NormalBinding::Action(ContainerAction::Start))
        } else if c == 'S' {
            Some(NormalBinding::Action(ContainerAction::Stop))
        } else if c == 'r' {
            Some(NormalBinding::Action(ContainerAction::Restart))
        } else if c == 'x' {
            Some(NormalBinding::Action(ContainerAction::Remove))
        } else if c == 'e' {
            Some(NormalBinding::Action(ContainerAction::Exec))
        } else if c == 'p' {
            Some(NormalBinding::Action(ContainerAction::Pull))
        } else {
            None
        },
        KeyCode::Tab => Some(NormalBinding::NextTab),
        KeyCode::BackTab => Some(NormalBinding::PrevTab),
        _ => None,
    }
}

/// Looks a key up in the Normal-mode key table.
pub fn normal_binding(code: KeyCode) -> (b: Option<NormalBinding>)
    ensures
        b == spec_normal_binding(code),
{
    match code {
        KeyCode::Char(c) => if c == 'q' {
            Some(NormalBinding::Quit)
        } else if c == 'j' {
            Some(NormalBinding::Cursor(CursorMove::Down))
        } else if c == 'k' {
            Some(NormalBinding::Cursor(CursorMove::Up))
        } else if c == 'g' {
            Some(NormalBinding::Cursor(CursorMove::Top))
        } else if c == 'G' {
            Some(NormalBinding::Cursor(CursorMove::Bottom))
        } else if c == 'd' {
            Some(NormalBinding::ToggleDetail)
        } else if c == 'l' {
            Some(NormalBinding::OpenLogs)
        } else if c == 'H' {
            Some(NormalBinding::EnterMode(AppMode::HostManager))
        } else if c == '?' {
            Some(NormalBinding::EnterMode(AppMode::Help))
        } else if c == ':' {
            Some(NormalBinding::EnterMode(AppMode::Command))
        } else if c == 'm' {
            Some(NormalBinding::ToggleSafeMode)
        } else if c == 's' {
            Some(NormalBinding::Action(ContainerAction::Start))
        } else if c == 'S' {
            Some(NormalBinding::Action(ContainerAction::Stop))
        } else if c == 'r' {
            Some(NormalBinding::Action(ContainerAction::Restart))
        } else if c == 'x' {
            Some(NormalBinding::Action(ContainerAction::Remove))
        } else if c == 'e' {
            Some(NormalBinding::Action(ContainerAction::Exec))
        } else if c == 'p' {
            Some(NormalBinding::Action(ContainerAction::Pull))
        } else {
            None
        },
        KeyCode::Tab => Some(NormalBinding::NextTab),
        KeyCode::BackTab => Some(NormalBinding::PrevTab),
        _ => None,
    }
}

/// The cursor of `h` after a movement.
pub open spec fn cursor_after(h: HostState, m: CursorMove) -> usize {
    let n = h.containers@.len();
    match m {
        CursorMove::Down => if n > 0 && h.selected + 1 < n { (h.selected + 1) as usize } else { h.selected },
        CursorMove::Up => if n > 0 && h.selected > 0 { (h.selected - 1) as usize } else { h.selected },
        CursorMove::Top => 0,
        CursorMove::Bottom => if n > 0 { (n - 1) as usize } else { h.selected },
    }
}

/// `t` is `s` after switching to mode `m`.
pub open spec fn mode_set(s: AppState, t: AppState, m: AppMode) -> bool {
    &&& t == (AppState { mode: m, command_query: t.command_query, ..s })
    &&& s.mode == AppMode::Command ==> t.command_query@.len() == 0
    &&& s.mode != AppMode::Command ==> t.command_query == s.command_query
}

/// `t` is `s` after toggling safe mode.
pub open spec fn safe_mode_toggled(s: AppState, t: AppState) -> bool {
    &&& t == (AppState { safe_mode: !s.safe_mode, status_message: t.status_message, ..s })
    &&& t.status_message matches Some(m) && m.level == MessageLevel::Info && m.ttl_ticks == STATUS_TTL_TICKS
        && m.text@ == (if t.safe_mode { "Safe mode ON"@ } else { "Safe mode OFF"@ })
}

/// `t` is `s` after dispatching `cmd` to host `idx`: held for confirmation
/// when it needs one, otherwise handed to the host's command channel.
pub open spec fn dispatched(s: AppState, t: AppState, idx: usize, cmd: HostCommand) -> bool {
    if cmd.spec_needs_confirmation(s.safe_mode) {
        &&& t == (AppState { pending_action: t.pending_action, ..s })
        &&& t.pending_action matches Some(p) && p.command == cmd && p.host_index == idx
            && p.label@ == cmd.spec_label()
    } else {
        &&& t == (AppState { command_tx: t.command_tx, ..s })
        &&& handed(s.command_tx@, t.command_tx@, idx, cmd)
    }
}

/// `t` is `s` after answering the confirmation dialog of `s` with `key`:
/// `y` (or `Y`) sends the held action, any other key drops it.
pub open spec fn dialog_answered(s: AppState, t: AppState, key: KeyInput) -> bool {
    &&& t == (AppState { pending_action: None, command_tx: t.command_tx, ..s })
    &&& if key.code == KeyCode::Char('y') || key.code == KeyCode::Char('Y') {
        match s.pending_action {
            Some(p) => handed(s.command_tx@, t.command_tx@, p.host_index, p.command),
            None => t.command_tx == s.command_tx,
        }
    } else {
        t.command_tx == s.command_tx
    }
}

/// `t` is `s` after entering Logs mode from Normal mode: with a container
/// under the active host's cursor, the panel is cleared, that container
/// becomes the log source, and a tail of its last `log_tail_lines` lines
/// is sent to the host's worker.
pub open spec fn logs_opened(s: AppState, t: AppState) -> bool {
    let a = s.active_tab;
    if s.hosts@.len() == 0 || s.hosts@[a as int].containers@.len() == 0 {
        t == (AppState { mode: AppMode::Logs, ..s })
    } else {
        let h = s.hosts@[a as int];
        let id = h.containers@[h.selected as int].id;
        &&& t == (AppState {
            mode: AppMode::Logs,
            log_buffer: t.log_buffer,
            log_source: Some((a, id)),
            command_tx: t.command_tx,
            ..s
        })
        &&& t.log_buffer@.len() == 0
        &&& handed(s.command_tx@, t.command_tx@, a, HostCommand::TailLogs { id, lines: s.log_tail_lines })
    }
}

/// `t` is `s` after the Normal-mode binding `b`.
pub open spec fn normal_effect(s: AppState, t: AppState, b: NormalBinding) -> bool {
    let a = s.active_tab;
    match b {
        NormalBinding::Quit => t == s,
        NormalBinding::Cursor(m) => if s.hosts@.len() == 0 {
            t == s
        } else {
            &&& t == (AppState { hosts: t.hosts, ..s })
            &&& t.hosts@ == s.hosts@.update(
                a as int,
                HostState { selected: cursor_after(s.hosts@[a as int], m), ..s.hosts@[a as int] },
            )
        },
        NormalBinding::NextTab => t == (AppState {
            active_tab: next_tab_index(a as nat, s.hosts@.len()) as usize,
            ..s
        }),
        NormalBinding::PrevTab => t == (AppState {
            active_tab: prev_tab_index(a as nat, s.hosts@.len()) as usize,
            ..s
        }),
        NormalBinding::ToggleDetail => t == (AppState { show_details: !s.show_details, ..s }),
        NormalBinding::EnterMode(m) => mode_set(s, t, m),
        NormalBinding::OpenLogs => logs_opened(s, t),
        NormalBinding::ToggleSafeMode => safe_mode_toggled(s, t),
        NormalBinding::Action(act) => {
            let h = s.hosts@[a as int];
            if h.containers@.len() == 0 {
                t == s
            } else {
                dispatched(s, t, a, act.spec_command(h.containers@[h.selected as int].id, h.containers@[h.selected as int].image))
            }
        },
    }
}

/// What pressing `key` does: `t` is the new state and `quit` whether the
/// application should exit.
pub open spec fn key_effect(s: AppState, t: AppState, key: KeyInput, quit: bool) -> bool {
    if s.pending_action is Some {
        // The confirmation dialog takes every key.
        !quit && dialog_answered(s, t, key)
    } else if key.ctrl && key.code == KeyCode::Char('c') {
        quit && t == s
    } else {
        match s.mode {
            AppMode::Normal => match spec_normal_binding(key.code) {
                Some(b) => quit == (b == NormalBinding::Quit) && normal_effect(s, t, b),
                None => !quit && t == s,
            },
            AppMode::Logs => !quit && logs_effect(s, t, key),
            AppMode::Command => !quit && if key.code == KeyCode::Esc {
                mode_set(s, t, AppMode::Normal)
            } else if key.code == KeyCode::Enter {
                palette_chosen(s, t)
            } else {
                query_edited(s, t, key)
            },
            AppMode::Help => !quit && if key.code == KeyCode::Esc || key.code == KeyCode::Char('?') {
                mode_set(s, t, AppMode::Normal)
            } else {
                t == s
            },
            AppMode::HostManager => !quit && if key.code == KeyCode::Esc {
                mode_set(s, t, AppMode::Normal)
            } else {
                t == s
            },
        }
    }
}

/// The entries the command palette shows in `s` (see `ranked`); none when
/// there is no container under the active host's cursor.
pub open spec fn shown_entries(s: AppState) -> Seq<(Seq<char>, Seq<char>, HostCommand, bool)> {
    let h = s.hosts@[s.active_tab as int];
    if s.hosts@.len() == 0 || h.containers@.len() == 0 {
        Seq::empty()
    } else {
        let c = h.containers@[h.selected as int];
        ranked(s.command_query@, palette_for(c.id, c.image, c.state == ContainerState::Running))
    }
}

/// `t` is `s` after Enter in the command palette: the palette closes and
/// its top entry, if it shows one, is dispatched to the active host.
pub open spec fn palette_chosen(s: AppState, t: AppState) -> bool {
    if palette_scorable(s.command_query@) && shown_entries(s).len() > 0 {
        exists|m: AppState|
            #![trigger dispatched(s, m, s.active_tab, shown_entries(s)[0].2)]
            dispatched(s, m, s.active_tab, shown_entries(s)[0].2) && mode_set(m, t, AppMode::Normal)
    } else {
        mode_set(s, t, AppMode::Normal)
    }
}

/// The text of an optional filter; none reads as empty.
pub open spec fn filter_text(f: Option<String>) -> Seq<char> {
    match f {
        Some(x) => x@,
        None => Seq::empty(),
    }
}

/// `text` after typing `key` into it: a character is appended, Backspace
/// removes the last one; `None` for keys that do not edit.
pub open spec fn typed(text: Seq<char>, key: KeyInput) -> Option<Seq<char>> {
    match key.code {
        KeyCode::Char(c) => Some(text.push(c)),
        KeyCode::Backspace => Some(if text.len() > 0 { text.drop_last() } else { text }),
        _ => None,
    }
}

/// `t` is `s` after typing `key` into the command palette's query.
pub open spec fn query_edited(s: AppState, t: AppState, key: KeyInput) -> bool {
    match typed(s.command_query@, key) {
        Some(q) => t == (AppState { command_query: t.command_query, ..s }) && t.command_query@ == q,
        None => t == s,
    }
}

/// What a key does in Logs mode. While the filter is being edited, typed
/// keys edit it and Esc or Enter finish editing. Otherwise `j` / `k`
/// scroll down / up (leaving follow mode), `f` toggles follow mode, `t`
/// toggles timestamps, `/` starts a new, empty filter and Esc returns to
/// Normal.
pub open spec fn logs_effect(s: AppState, t: AppState, key: KeyInput) -> bool {
    if s.filter_editing {
        if key.code == KeyCode::Esc || key.code == KeyCode::Enter {
            t == (AppState { filter_editing: false, ..s })
        } else {
            match typed(filter_text(s.log_filter), key) {
                Some(f) => t == (AppState { log_filter: t.log_filter, ..s }) && (t.log_filter matches Some(
                    x,
                ) && x@ == f),
                None => t == s,
            }
        }
    } else if key.code == KeyCode::Esc {
        mode_set(s, t, AppMode::Normal)
    } else if key.code == KeyCode::Char('j') {
        t == (AppState {
            log_follow: false,
            log_scroll: if s.log_scroll < u16::MAX { (s.log_scroll + 1) as u16 } else { s.log_scroll },
            ..s
        })
    } else if key.code == KeyCode::Char('k') {
        t == (AppState {
            log_follow: false,
            log_scroll: if s.log_scroll > 0 { (s.log_scroll - 1) as u16 } else { 0 },
            ..s
        })
    } else if key.code == KeyCode::Char('f') {
        t == (AppState { log_follow: !s.log_follow, ..s })
    } else if key.code == KeyCode::Char('t') {
        t == (AppState { log_timestamps: !s.log_timestamps, ..s })
    } else if key.code == KeyCode::Char('/') {
        t == (AppState { filter_editing: true, log_filter: t.log_filter, ..s }) && (t.log_filter matches Some(x)
            && x@.len() == 0)
    } else {
        t == s
    }
}

/// Whether handling `key` reads the active host's container list.
pub open spec fn key_reads_active_host(s: AppState, key: KeyInput) -> bool {
    &&& s.pending_action is None
    &&& !(key.ctrl && key.code == KeyCode::Char('c'))
    &&& s.mode == AppMode::Normal
    &&& spec_normal_binding(key.code) matches Some(NormalBinding::Action(_))
}

fn move_cursor(h: &mut HostState, m: CursorMove)
    requires
        old(h).well_formed(),
    ensures
        final(h).well_formed(),
        *final(h) == (HostState { selected: cursor_after(*old(h), m), ..*old(h) }),
{
    match m {
        CursorMove::Down => h.next_container(),
        CursorMove::Up => h.prev_container(),
        CursorMove::Top => h.jump_top(),
        CursorMove::Bottom => h.jump_bottom(),
    }
}

/// Sends `act` for the container under the active host's cursor (nothing
/// happens when that host has no containers).
pub fn dispatch_selected(state: &mut AppState, host_idx: usize, act: ContainerAction)
    requires
        old(state).well_formed(),
        old(state).hosts@.len() > 0,
        host_idx == old(state).active_tab,
    ensures
        final(state).well_formed(),
        ({
            let h = old(state).hosts@[host_idx as int];
            if h.containers@.len() == 0 {
                *final(state) == *old(state)
            } else {
                dispatched(*old(state), *final(state), host_idx, act.spec_command(h.containers@[h.selected as int].id, h.containers@[h.selected as int].image))
            }
        }),
{
    let target = match state.active_host().selected_container() {
        Some(c) => Some((c.id, c.image)),
        None => None,
    };
    if let Some((id, image)) = target {
        let cmd = act.command(id, image);
        state.dispatch_command(host_idx, cmd);
    }
}

fn open_logs(state: &mut AppState)
    requires
        old(state).well_formed(),
        old(state).mode == AppMode::Normal,
    ensures
        final(state).well_formed(),
        logs_opened(*old(state), *final(state)),
{
    state.mode = AppMode::Logs;
    if state.hosts.len() == 0 {
        return;
    }
    let a = state.active_tab;
    let target = match state.active_host().selected_container() {
        Some(c) => Some(c.id),
        None => None,
    };
    if let Some(id) = target {
        state.log_buffer = VecDeque::new();
        state.log_source = Some((a, id.clone()));
        let lines = state.log_tail_lines;
        state.dispatch_command(a, HostCommand::TailLogs { id, lines });
    }
}

fn choose_from_palette(state: &mut AppState)
    requires
        old(state).well_formed(),
        old(state).mode == AppMode::Command,
    ensures
        final(state).well_formed(),
        palette_chosen(*old(state), *final(state)),
{
    let mut choice: Option<HostCommand> = None;
    if state.hosts.len() > 0 {
        if let Some(v) = palette_matches(state.command_query.as_str(), state.active_host()) {
            if v.len() > 0 {
                proof {
                    assert(entries(v@)[0] == entry_view(v@[0]));
                }
                choice = Some(v[0].command.clone());
            }
        }
    }
    let ghost s0 = *state;
    let a = state.active_tab;
    match choice {
        Some(cmd) => {
            state.dispatch_command(a, cmd);
            let ghost m = *state;
            state.set_mode(AppMode::Normal);
            assert(dispatched(s0, m, s0.active_tab, shown_entries(s0)[0].2) && mode_set(m, *state, AppMode::Normal));
        },
        None => {
            state.set_mode(AppMode::Normal);
        },
    }
}

fn handle_normal_key(state: &mut AppState, b: NormalBinding) -> (quit: bool)
    requires
        old(state).well_formed(),
        old(state).mode == AppMode::Normal,
        b matches NormalBinding::Action(_) ==> old(state).hosts@.len() > 0,
    ensures
        final(state).well_formed(),
        quit == (b == NormalBinding::Quit),
        normal_effect(*old(state), *final(state), b),
{
    let host_idx = state.active_tab;
    match b {
        NormalBinding::Quit => {
            return true;
        },
        NormalBinding::Cursor(m) => {
            if host_idx < state.hosts.len() {
                let ghost before = state.hosts@;
                move_cursor(&mut state.hosts[host_idx], m);
                proof {
                    assert forall|i: int| 0 <= i < state.hosts@.len() implies (#[trigger] state.hosts@[i]).well_formed() by {
                        if i != host_idx {
                            assert(state.hosts@[i] == before[i]);
                        }
                    }
                }
            }
        },
        NormalBinding::NextTab => state.next_tab(),
        NormalBinding::PrevTab => state.prev_tab(),
        NormalBinding::ToggleDetail => state.toggle_detail(),
        NormalBinding::EnterMode(m) => state.set_mode(m),
        NormalBinding::OpenLogs => open_logs(state),
        NormalBinding::ToggleSafeMode => state.toggle_safe_mode(),
        NormalBinding::Action(act) => dispatch_selected(state, host_idx, act),
    }
    false
}

/// Handles one key press; returns whether the application should quit.
pub fn handle_key(state: &mut AppState, key: KeyInput) -> (quit: bool)
    requires
        old(state).well_formed(),
        key_reads_active_host(*old(state), key) ==> old(state).hosts@.len() > 0,
    ensures
        final(state).well_formed(),
        key_effect(*old(state), *final(state), key, quit),
{
    if state.pending_action.is_some() {
        if key.code == KeyCode::Char('y') || key.code == KeyCode::Char('Y') {
            state.confirm_pending_action();
        } else {
            state.clear_pending_action();
        }
        return false;
    }
    if key.ctrl && key.code == KeyCode::Char('c') {
        return true;
    }
    match state.mode {
        AppMode::Normal => {
            match normal_binding(key.code) {
                Some(b) => {
                    return handle_normal_key(state, b);
                },
                None => {},
            }
        },
        AppMode::Logs => handle_logs_key(state, key),
        AppMode::Command => {
            if key.code == KeyCode::Esc {
                state.set_mode(AppMode::Normal);
            } else if key.code == KeyCode::Enter {
                choose_from_palette(state);
            } else if let Some(q) = type_into(&state.command_query, key) {
                state.command_query = q;
            }
        },
        AppMode::Help => {
            if key.code == KeyCode::Esc || key.code == KeyCode::Char('?') {
                state.set_mode(AppMode::Normal);
            }
        },
        AppMode::HostManager => {
            if key.code == KeyCode::Esc {
                state.set_mode(AppMode::Normal);
            }
        },
    }
    false
}

/// `text` with its last character removed (unchanged when empty).
fn without_last(text: &str) -> (r: String)
    ensures
        r@ == (if text@.len() > 0 { text@.drop_last() } else { text@ }),
{
    let cs = crate::text::chars_of(text);
    let n: usize = if cs.len() > 0 { cs.len() - 1 } else { 0 };
    let mut r = String::new();
    let mut i: usize = 0;
    while i < n
        invariant
            i <= n,
            n <= cs@.len(),
            cs@ == text@,
            r@ == cs@.take(i as int),
        decreases n - i,
    {
        r.push(cs[i]);
        i = i + 1;
        assert(r@ =~= cs@.take(i as int));
    }
    assert(cs@.take(n as int) =~= (if text@.len() > 0 { text@.drop_last() } else { text@ }));
    r
}

/// `text` after typing `key` into it (see `typed`).
fn type_into(text: &str, key: KeyInput) -> (r: Option<String>)
    ensures
        r matches Some(x) ==> typed(text@, key) == Some(x@),
        r is None ==> typed(text@, key) is None,
{
    match key.code {
        KeyCode::Char(c) => {
            let mut x = String::from_str(text);
            x.push(c);
            Some(x)
        },
        KeyCode::Backspace => Some(without_last(text)),
        _ => None,
    }
}

/// Logs mode (see `logs_effect`).
fn handle_logs_key(state: &mut AppState, key: KeyInput)
    requires
        old(state).well_formed(),
    ensures
        final(state).well_formed(),
        logs_effect(*old(state), *final(state), key),
{
    if state.filter_editing {
        if key.code == KeyCode::Esc || key.code == KeyCode::Enter {
            state.filter_editing = false;
        } else {
            let current = match &state.log_filter {
                Some(f) => f.clone(),
                None => String::new(),
            };
            if let Some(f) = type_into(current.as_str(), key) {
                state.log_filter = Some(f);
            }
        }
        return;
    }
    match key.code {
        KeyCode::Esc => state.set_mode(AppMode::Normal),
        KeyCode::Char('j') => {
            state.log_follow = false;
            if state.log_scroll < u16::MAX {
                state.log_scroll = state.log_scroll + 1;
            }
        },
        KeyCode::Char('k') => {
            state.log_follow = false;
            if state.log_scroll > 0 {
                state.log_scroll = state.log_scroll - 1;
            }
        },
        KeyCode::Char('f') => {
            state.log_follow = !state.log_follow;
        },
        KeyCode::Char('t') => {
            state.log_timestamps = !state.log_timestamps;
        },
        KeyCode::Char('/') => {
            state.log_filter = Some(String::new());
            state.filter_editing = true;
        },
        _ => {},
    }
}

} // verus!
