//! Properties of the library as a whole: statements that relate several
//! operations or hold of every state, each proved from the contracts.
use vstd::prelude::*;
use crate::app::{buffer_after, next_tab_index, prev_tab_index, status_after_tick, update_applied, AppState};
use crate::compose::{compose_key, is_grouping, named_in, GroupView};
use crate::config::without_name;
use crate::container::{ring_push, ContainerView};
use crate::host::{bounded_append, HostConfig, LOG_BUFFER_CAPACITY};
use crate::keys::{key_effect, safe_mode_toggled, KeyCode, KeyInput};
use crate::messages::{HostCommand, HostUpdate};
use crate::order::{group_lt, ungrouped};
use crate::stats::{cpu_hundredths, StatsSnapshot};
use crate::ui_state::{AppMode, MessageLevel, StatusMessage, STATUS_TTL_TICKS};
use crate::worker::{kept_lines, next_phase, split_lines, step_actions, trim_cr, WorkerAction, WorkerEvent, WorkerPhase};
use crate::host::HostStatus;
use crate::palette::{find_char, greedy, insert_desc, listed, lowercase, palette_for, ranked, score_of, scored, sort_desc};
use crate::worker::{running_id, to_spawn};
use crate::container::ContainerState;
use crate::text::{first_occ_from, lemma_first_occ_bounds};
use crate::view::segments_from;

verus! {

/// Tab navigation wraps around and `prev_tab` undoes `next_tab` (and the
/// other way round): from any valid tab, both land on a valid tab.
pub proof fn law_tab_round_trip(t: nat, n: nat)
    requires
        t < n,
    ensures
        next_tab_index(t, n) < n,
        prev_tab_index(t, n) < n,
        prev_tab_index(next_tab_index(t, n), n) == t,
        next_tab_index(prev_tab_index(t, n), n) == t,
{
}

/// A status message stays on screen for exactly `STATUS_TTL_TICKS` ticks:
/// still there after two ticks, gone after the third.
pub proof fn law_status_message_lifetime(m: StatusMessage)
    requires
        m.ttl_ticks == STATUS_TTL_TICKS,
    ensures
        status_after_tick(status_after_tick(Some(m))) is Some,
        status_after_tick(status_after_tick(status_after_tick(Some(m)))) is None,
{
}

/// The confirmation gate: removal always asks first, stop and restart ask
/// only in safe mode, every other command is sent straight away.
pub proof fn law_confirmation_gate(cmd: HostCommand, safe_mode: bool)
    ensures
        cmd is RemoveContainer ==> cmd.spec_needs_confirmation(safe_mode),
        (cmd is StopContainer || cmd is RestartContainer) ==> (cmd.spec_needs_confirmation(safe_mode)
            <==> safe_mode),
        !cmd.spec_is_destructive() ==> !cmd.spec_needs_confirmation(safe_mode),
{
}

/// While a confirmation dialog is open, every key closes it and nothing
/// else happens: no quitting, no mode change, no other state change.
pub proof fn law_dialog_takes_every_key(s: AppState, t: AppState, key: KeyInput, quit: bool)
    requires
        s.pending_action is Some,
        key_effect(s, t, key, quit),
    ensures
        !quit,
        t.pending_action is None,
        t.mode == s.mode,
        t.hosts == s.hosts,
        t.safe_mode == s.safe_mode,
        t.active_tab == s.active_tab,
{
}

/// Toggling safe mode twice gives back the setting it started from, and
/// each toggle announces the setting it leaves in force.
pub proof fn law_safe_mode_toggle_twice(s: AppState, t: AppState, u: AppState)
    requires
        safe_mode_toggled(s, t),
        safe_mode_toggled(t, u),
    ensures
        t.safe_mode == !s.safe_mode,
        u.safe_mode == s.safe_mode,
        u.status_message matches Some(m) && m.text@ == (if s.safe_mode { "Safe mode ON"@ } else {
            "Safe mode OFF"@
        }),
{
}

/// Without a dialog, Ctrl-C quits from every mode and changes nothing.
pub proof fn law_ctrl_c_quits(s: AppState, t: AppState, quit: bool)
    requires
        s.pending_action is None,
        key_effect(s, t, KeyInput { code: KeyCode::Char('c'), ctrl: true }, quit),
    ensures
        quit,
        t == s,
{
}

/// Only `q` in Normal mode and Ctrl-C quit.
pub proof fn law_only_q_and_ctrl_c_quit(s: AppState, t: AppState, key: KeyInput)
    requires
        key_effect(s, t, key, true),
    ensures
        s.pending_action is None,
        (key.ctrl && key.code == KeyCode::Char('c')) || (s.mode == AppMode::Normal && key.code
            == KeyCode::Char('q')),
{
}

/// `Esc` in any overlay or in Logs mode returns to Normal (while the log
/// filter is being edited it first finishes the editing), and leaving the
/// command palette clears its query.
pub proof fn law_escape_returns_to_normal(s: AppState, t: AppState, quit: bool)
    requires
        s.pending_action is None,
        s.mode != AppMode::Normal,
        !s.filter_editing,
        key_effect(s, t, KeyInput { code: KeyCode::Esc, ctrl: false }, quit),
    ensures
        !quit,
        t.mode == AppMode::Normal,
        s.mode == AppMode::Command ==> t.command_query@.len() == 0,
{
}

/// The sparkline histories never grow past their capacity.
pub proof fn law_history_bounded<T>(s: Seq<T>, x: T, cap: nat)
    requires
        cap > 0,
        s.len() <= cap,
    ensures
        ring_push(s, x, cap).len() <= cap,
        ring_push(s, x, cap).last() == x,
{
}

/// A container's log never holds more than `LOG_BUFFER_CAPACITY` lines,
/// and its newest line is the last one appended.
pub proof fn law_log_bounded(s: Seq<String>, line: String)
    requires
        s.len() <= LOG_BUFFER_CAPACITY,
    ensures
        bounded_append(s, line).len() <= LOG_BUFFER_CAPACITY,
        bounded_append(s, line).last() == line,
{
}

/// CPU use is zero unless both counters advanced (a counter that went
/// backwards reads as zero), and never exceeds 100% per CPU.
pub proof fn law_cpu_percent_range(prev: StatsSnapshot, curr: StatsSnapshot)
    ensures
        curr.cpu_total <= prev.cpu_total ==> cpu_hundredths(prev, curr) == 0,
        curr.system_cpu <= prev.system_cpu ==> cpu_hundredths(prev, curr) == 0,
        cpu_hundredths(prev, curr) <= curr.online_cpus as nat * 10000,
{
}

/// Removing a host by name leaves no host of that name behind.
pub proof fn law_removed_host_is_gone(hs: Seq<HostConfig>, name: Seq<char>)
    ensures
        forall|i: int| 0 <= i < without_name(hs, name).len() ==> (#[trigger] without_name(hs, name)[i]).name@
            != name,
{
    broadcast use vstd::seq_lib::group_filter_ensures;
}

/// In a grouping, the `ungrouped` group (if any) is listed last, and each
/// container is listed in the group named by its Compose project.
pub proof fn law_grouping_shape(s: Seq<ContainerView>, gs: Seq<GroupView>)
    requires
        is_grouping(s, gs),
    ensures
        forall|i: int| 0 <= i < gs.len() - 1 ==> (#[trigger] gs[i]).name != ungrouped(),
        forall|k: int| 0 <= k < s.len() ==> named_in(gs, compose_key(#[trigger] s[k])),
{
    assert forall|i: int| 0 <= i < gs.len() - 1 implies (#[trigger] gs[i]).name != ungrouped() by {
        assert(group_lt(gs[i].name, gs[gs.len() - 1].name));
    }
}

/// A worker that has stopped stays stopped whatever happens, and a
/// shutdown stops a worker that is serving or backing off.
pub proof fn law_worker_shutdown(phase: WorkerPhase, e: WorkerEvent)
    ensures
        next_phase(WorkerPhase::Stopped, e) == WorkerPhase::Stopped,
        (phase == WorkerPhase::Connected || phase == WorkerPhase::BackingOff) ==> next_phase(
            phase,
            WorkerEvent::Command(HostCommand::Shutdown),
        ) == WorkerPhase::Stopped,
        (phase == WorkerPhase::Connected || phase == WorkerPhase::BackingOff) ==> next_phase(
            phase,
            WorkerEvent::ChannelClosed,
        ) == WorkerPhase::Stopped,
{
}

/// An unreachable host is retried: a failed connection, or a failed poll
/// of a connected host, reports the host `Unreachable` and backs off; when
/// the back-off ends the worker announces `Connecting` and connects again.
pub proof fn law_unreachable_host_retries(
    phase: WorkerPhase,
    e: String,
    acts: Seq<WorkerAction>,
    retry: Seq<WorkerAction>,
)
    requires
        phase == WorkerPhase::Connecting || phase == WorkerPhase::Connected,
        step_actions(
            phase,
            if phase == WorkerPhase::Connecting { WorkerEvent::ConnectFailed(e) } else { WorkerEvent::PollFailed(e) },
            acts,
        ),
        step_actions(WorkerPhase::BackingOff, WorkerEvent::RetryDue, retry),
    ensures
        next_phase(
            phase,
            if phase == WorkerPhase::Connecting { WorkerEvent::ConnectFailed(e) } else { WorkerEvent::PollFailed(e) },
        ) == WorkerPhase::BackingOff,
        exists|i: int| 0 <= i < acts.len() && #[trigger] acts[i] matches WorkerAction::EmitStatus(HostStatus::Unreachable(_)),
        acts.last() is WaitForRetry,
        next_phase(WorkerPhase::BackingOff, WorkerEvent::RetryDue) == WorkerPhase::Connecting,
        retry.len() == 2,
        retry[0] matches WorkerAction::EmitStatus(HostStatus::Connecting),
        retry[1] is Connect,
{
    if phase == WorkerPhase::Connecting {
        assert(acts[0] matches WorkerAction::EmitStatus(HostStatus::Unreachable(_)));
    } else {
        assert(acts[1] matches WorkerAction::EmitStatus(HostStatus::Unreachable(_)));
    }
}

/// A failed action does not end the session: the worker stays connected
/// and reports the failure, and the main loop shows the report as an error
/// in the status line for `STATUS_TTL_TICKS` ticks.
pub proof fn law_failed_action_reported(
    e: String,
    acts: Seq<WorkerAction>,
    s: AppState,
    t: AppState,
    idx: usize,
    text: String,
)
    requires
        step_actions(WorkerPhase::Connected, WorkerEvent::ServeFailed(e), acts),
        idx < s.hosts@.len(),
        update_applied(s, t, idx, HostUpdate::ActionFailed(text)),
    ensures
        next_phase(WorkerPhase::Connected, WorkerEvent::ServeFailed(e)) == WorkerPhase::Connected,
        acts.len() == 1,
        acts[0] matches WorkerAction::ReportFailure(m) && m@ == "action failed: "@ + e@,
        t.status_message matches Some(m) && m.text == text && m.level == MessageLevel::Error
            && m.ttl_ticks == STATUS_TTL_TICKS,
        t.hosts == s.hosts,
{
}

proof fn lemma_split_pieces_no_newline(s: Seq<char>)
    ensures
        forall|i: int, j: int| 0 <= i < split_lines(s).len() && 0 <= j < split_lines(s)[i].len()
            ==> #[trigger] split_lines(s)[i][j] != '\n',
    decreases s.len(),
{
    if s.len() > 0 {
        lemma_split_pieces_no_newline(s.drop_last());
        let p = split_lines(s.drop_last());
        crate::worker::lemma_split_lines_nonempty(s.drop_last());
        if s.last() != '\n' {
            assert forall|i: int, j: int| 0 <= i < split_lines(s).len() && 0 <= j < split_lines(s)[i].len()
                implies #[trigger] split_lines(s)[i][j] != '\n' by {
                if i == p.len() - 1 {
                    if j < p.last().len() {
                        assert(split_lines(s)[i][j] == p[i][j]);
                    }
                } else {
                    assert(split_lines(s)[i] == p[i]);
                }
            }
        } else {
            assert forall|i: int, j: int| 0 <= i < split_lines(s).len() && 0 <= j < split_lines(s)[i].len()
                implies #[trigger] split_lines(s)[i][j] != '\n' by {
                assert(split_lines(s)[i] == p.push(Seq::empty())[i]);
            }
        }
    }
}

proof fn lemma_trim_cr(p: Seq<char>)
    ensures
        trim_cr(p).len() <= p.len(),
        trim_cr(p) == p.take(trim_cr(p).len() as int),
        trim_cr(p).len() > 0 ==> trim_cr(p).last() != '\r',
    decreases p.len(),
{
    if p.len() > 0 && p.last() == '\r' {
        lemma_trim_cr(p.drop_last());
        assert(p.drop_last().take(trim_cr(p).len() as int) =~= p.take(trim_cr(p).len() as int));
    } else {
        assert(p.take(p.len() as int) =~= p);
    }
}

proof fn lemma_kept_lines(pieces: Seq<Seq<char>>)
    requires
        forall|i: int, j: int| 0 <= i < pieces.len() && 0 <= j < pieces[i].len() ==> #[trigger] pieces[i][j] != '\n',
    ensures
        forall|i: int| 0 <= i < kept_lines(pieces).len() ==> {
            &&& (#[trigger] kept_lines(pieces)[i]).len() > 0
            &&& kept_lines(pieces)[i].last() != '\r'
            &&& forall|j: int| 0 <= j < kept_lines(pieces)[i].len() ==> kept_lines(pieces)[i][j] != '\n'
        },
    decreases pieces.len(),
{
    if pieces.len() > 0 {
        let init = pieces.drop_last();
        assert forall|i: int, j: int| 0 <= i < init.len() && 0 <= j < init[i].len() implies #[trigger] init[i][j] != '\n' by {
            assert(init[i] == pieces[i]);
        }
        lemma_kept_lines(init);
        let last = pieces.last();
        lemma_trim_cr(last);
        let t = trim_cr(last);
        assert forall|j: int| 0 <= j < t.len() implies t[j] != '\n' by {
            assert(t[j] == last[j]);
            assert(pieces[pieces.len() - 1][j] != '\n');
        }
        let rest = kept_lines(init);
        let all = kept_lines(pieces);
        assert forall|i: int| 0 <= i < all.len() implies {
            &&& (#[trigger] all[i]).len() > 0
            &&& all[i].last() != '\r'
            &&& forall|j: int| 0 <= j < all[i].len() ==> all[i][j] != '\n'
        } by {
            if i < rest.len() {
                assert(all[i] == rest[i]);
            } else {
                assert(all[i] == t);
            }
        }
    }
}

/// Every line cut from a log chunk is non-empty, holds no line feed and
/// does not end in a carriage return.
pub proof fn law_log_lines_are_clean(chunk: Seq<char>)
    ensures
        forall|i: int| 0 <= i < kept_lines(split_lines(chunk)).len() ==> {
            &&& (#[trigger] kept_lines(split_lines(chunk))[i]).len() > 0
            &&& kept_lines(split_lines(chunk))[i].last() != '\r'
            &&& forall|j: int| 0 <= j < kept_lines(split_lines(chunk))[i].len() ==> kept_lines(
                split_lines(chunk),
            )[i][j] != '\n'
        },
{
    lemma_split_pieces_no_newline(chunk);
    lemma_kept_lines(split_lines(chunk));
}

/// The text of a list of runs, in order.
pub open spec fn runs_text(rs: Seq<(Seq<char>, bool)>) -> Seq<char>
    decreases rs.len(),
{
    if rs.len() == 0 {
        Seq::empty()
    } else {
        rs[0].0 + runs_text(rs.drop_first())
    }
}

proof fn lemma_runs_text_append(a: Seq<(Seq<char>, bool)>, b: Seq<(Seq<char>, bool)>)
    ensures
        runs_text(a + b) == runs_text(a) + runs_text(b),
    decreases a.len(),
{
    if a.len() == 0 {
        assert(a + b =~= b);
    } else {
        assert((a + b).drop_first() =~= a.drop_first() + b);
        lemma_runs_text_append(a.drop_first(), b);
    }
}

/// Highlighting never loses or invents text: the runs of a line, read in
/// order, spell the line.
pub proof fn law_highlight_keeps_text(s: Seq<char>, needle: Seq<char>, k: int)
    requires
        needle.len() > 0,
        0 <= k <= s.len(),
    ensures
        runs_text(segments_from(s, needle, k)) == s.subrange(k, s.len() as int),
    decreases s.len() + 1 - k,
{
    lemma_first_occ_bounds(s, needle, k);
    match first_occ_from(s, needle, k) {
        None => {
            if k < s.len() {
                let r = seq![(s.subrange(k, s.len() as int), false)];
                assert(r.drop_first() =~= Seq::<(Seq<char>, bool)>::empty());
                assert(runs_text(r.drop_first()) =~= Seq::<char>::empty());
                assert(runs_text(r) =~= s.subrange(k, s.len() as int));
            } else {
                assert(s.subrange(k, s.len() as int) =~= Seq::<char>::empty());
            }
        },
        Some(q) => {
            let nk = q + needle.len();
            law_highlight_keeps_text(s, needle, nk);
            let before: Seq<(Seq<char>, bool)> = if q > k { seq![(s.subrange(k, q), false)] } else { Seq::empty() };
            let hit = seq![(needle, true)];
            lemma_runs_text_append(before + hit, segments_from(s, needle, nk));
            lemma_runs_text_append(before, hit);
            assert(hit.drop_first() =~= Seq::<(Seq<char>, bool)>::empty());
            assert(runs_text(hit.drop_first()) =~= Seq::<char>::empty());
            if q > k {
                assert(before.drop_first() =~= Seq::<(Seq<char>, bool)>::empty());
                assert(runs_text(before.drop_first()) =~= Seq::<char>::empty());
                assert(runs_text(before) =~= s.subrange(k, q));
            } else {
                assert(runs_text(before) =~= Seq::<char>::empty());
            }
            assert(runs_text(hit) =~= needle);
            assert(s.subrange(k, s.len() as int) =~= s.subrange(k, q) + s.subrange(q, nk) + s.subrange(nk, s.len() as int));
        },
    }
}

/// `q` can be embedded in `l`: strictly increasing positions of `l` hold
/// the characters of `q` in order.
pub open spec fn embeds(q: Seq<char>, l: Seq<char>) -> bool {
    exists|idx: Seq<int>| is_embedding(q, l, idx)
}

pub open spec fn is_embedding(q: Seq<char>, l: Seq<char>, idx: Seq<int>) -> bool {
    &&& idx.len() == q.len()
    &&& forall|i: int| 0 <= i < q.len() ==> 0 <= #[trigger] idx[i] < l.len() && l[idx[i]] == q[i]
    &&& forall|i: int, j: int| 0 <= i < j < q.len() ==> #[trigger] idx[i] < #[trigger] idx[j]
}

proof fn lemma_find_char_facts(l: Seq<char>, c: char)
    ensures
        find_char(l, c) matches Some(i) ==> 0 <= i < l.len() && l[i] == c
            && forall|j: int| 0 <= j < i ==> l[j] != c,
        find_char(l, c) is None ==> forall|j: int| 0 <= j < l.len() ==> l[j] != c,
    decreases l.len(),
{
    if l.len() > 0 {
        lemma_find_char_facts(l.drop_first(), c);
        if l[0] != c {
            assert forall|j: int| 1 <= j < l.len() implies l[j] == l.drop_first()[j - 1] by {}
        }
    }
}

proof fn lemma_greedy_complete(q: Seq<char>, l: Seq<char>, idx: Seq<int>)
    requires
        is_embedding(q, l, idx),
    ensures
        greedy(q, l) == q.len(),
    decreases q.len(),
{
    if q.len() > 0 {
        lemma_find_char_facts(l, q[0]);
        assert(l[idx[0]] == q[0]);
        let i = find_char(l, q[0])->0;
        assert(i <= idx[0]);
        let l2 = l.skip(i + 1);
        let q2 = q.drop_first();
        let idx2 = Seq::new(q2.len(), |k: int| idx[k + 1] - (i + 1));
        assert forall|k: int| 0 <= k < q2.len() implies 0 <= #[trigger] idx2[k] < l2.len() && l2[idx2[k]] == q2[k] by {
            assert(idx[0] < idx[k + 1]);
        }
        assert forall|a: int, b: int| 0 <= a < b < q2.len() implies #[trigger] idx2[a] < #[trigger] idx2[b] by {
            assert(idx[a + 1] < idx[b + 1]);
        }
        lemma_greedy_complete(q2, l2, idx2);
    }
}

proof fn lemma_greedy_sound(q: Seq<char>, l: Seq<char>)
    requires
        greedy(q, l) == q.len(),
    ensures
        embeds(q, l),
    decreases q.len(),
{
    if q.len() == 0 {
        assert(is_embedding(q, l, Seq::empty()));
    } else {
        lemma_find_char_facts(l, q[0]);
        let i = find_char(l, q[0])->0;
        let l2 = l.skip(i + 1);
        let q2 = q.drop_first();
        lemma_greedy_sound(q2, l2);
        let idx2 = choose|idx2: Seq<int>| is_embedding(q2, l2, idx2);
        let idx = seq![i].add(Seq::new(q2.len(), |k: int| idx2[k] + i + 1));
        assert forall|k: int| 0 <= k < q.len() implies 0 <= #[trigger] idx[k] < l.len() && l[idx[k]] == q[k] by {
            if k > 0 {
                assert(idx[k] == idx2[k - 1] + i + 1);
                assert(l2[idx2[k - 1]] == q2[k - 1]);
            }
        }
        assert forall|a: int, b: int| 0 <= a < b < q.len() implies #[trigger] idx[a] < #[trigger] idx[b] by {
            if a > 0 {
                assert(idx2[a - 1] < idx2[b - 1]);
            } else {
                assert(idx[b] == idx2[b - 1] + i + 1);
                assert(0 <= idx2[b - 1]);
            }
        }
        assert(is_embedding(q, l, idx));
    }
}

/// A palette label scores above zero exactly when the lower-cased query
/// can be read, in order, out of the lower-cased label.
pub proof fn law_score_means_subsequence(query: Seq<char>, label: Seq<char>)
    ensures
        score_of(query, label) > 0 <==> embeds(lowercase(query), lowercase(label)),
{
    let q = lowercase(query);
    let l = lowercase(label);
    if embeds(q, l) {
        let idx = choose|idx: Seq<int>| is_embedding(q, l, idx);
        lemma_greedy_complete(q, l, idx);
    }
    if greedy(q, l) == q.len() {
        lemma_greedy_sound(q, l);
    }
}

/// `x` in Normal mode asks for confirmation before removing the selected
/// container, whether safe mode is on or off.
pub proof fn law_remove_key_always_confirms(s: AppState, t: AppState, quit: bool)
    requires
        s.pending_action is None,
        s.mode == AppMode::Normal,
        s.hosts@.len() > 0,
        s.hosts@[s.active_tab as int].containers@.len() > 0,
        key_effect(s, t, KeyInput { code: KeyCode::Char('x'), ctrl: false }, quit),
    ensures
        !quit,
        t.pending_action matches Some(p) && p.command is RemoveContainer && p.host_index == s.active_tab,
{
}

/// With safe mode off, `S` stops the selected container without asking:
/// nothing is held for confirmation, exactly the stop command for the
/// container under the cursor goes to the active host's channel, no other
/// channel gets anything, and nothing else changes.
pub proof fn law_stop_key_without_safe_mode_sends(s: AppState, t: AppState, quit: bool)
    requires
        s.pending_action is None,
        s.mode == AppMode::Normal,
        !s.safe_mode,
        s.hosts@.len() > 0,
        s.hosts@[s.active_tab as int].containers@.len() > 0,
        s.active_tab < s.command_tx@.len(),
        key_effect(s, t, KeyInput { code: KeyCode::Char('S'), ctrl: false }, quit),
    ensures
        !quit,
        t.pending_action is None,
        t == (AppState { command_tx: t.command_tx, ..s }),
        t.command_tx@.len() == s.command_tx@.len(),
        t.command_tx@[s.active_tab as int].sent_log() == s.command_tx@[s.active_tab as int].sent_log().push(
            HostCommand::StopContainer(
                s.hosts@[s.active_tab as int].containers@[s.hosts@[s.active_tab as int].selected as int].id,
            ),
        ),
        forall|i: int| 0 <= i < s.command_tx@.len() && i != s.active_tab ==> #[trigger] t.command_tx@[i]
            == s.command_tx@[i],
{
}

/// Confirming a held action with `y` sends exactly that action to its host's
/// channel and closes the dialog; any other key closes it and sends nothing.
pub proof fn law_confirm_sends_held_action(s: AppState, t: AppState, key: KeyInput, quit: bool)
    requires
        s.pending_action is Some,
        s.pending_action->0.host_index < s.command_tx@.len(),
        key_effect(s, t, key, quit),
    ensures
        !quit,
        t.pending_action is None,
        (key.code == KeyCode::Char('y') || key.code == KeyCode::Char('Y')) ==> {
            &&& t.command_tx@[s.pending_action->0.host_index as int].sent_log() == s.command_tx@[s.pending_action->0.host_index as int].sent_log().push(
                s.pending_action->0.command,
            )
            &&& forall|i: int| 0 <= i < s.command_tx@.len() && i != s.pending_action->0.host_index ==> #[trigger] t.command_tx@[i]
                == s.command_tx@[i]
        },
        !(key.code == KeyCode::Char('y') || key.code == KeyCode::Char('Y')) ==> t == (AppState {
            pending_action: None,
            ..s
        }),
{
}

/// Keys never increase along a sequence.
pub open spec fn non_increasing<E>(s: Seq<(u32, E)>) -> bool {
    forall|i: int, j: int| 0 <= i < j < s.len() ==> (#[trigger] s[i]).0 >= (#[trigger] s[j]).0
}

proof fn lemma_insert_desc_sorted<E>(s: Seq<(u32, E)>, x: (u32, E))
    requires
        non_increasing(s),
    ensures
        non_increasing(insert_desc(s, x)),
        insert_desc(s, x).len() == s.len() + 1,
        forall|i: int| 0 <= i < insert_desc(s, x).len() ==> (#[trigger] insert_desc(s, x)[i]).0 == x.0
            || exists|j: int| 0 <= j < s.len() && s[j].0 == insert_desc(s, x)[i].0,
    decreases s.len(),
{
    if s.len() > 0 && s[0].0 >= x.0 {
        let t = s.drop_first();
        assert forall|i: int, j: int| 0 <= i < j < t.len() implies (#[trigger] t[i]).0 >= (#[trigger] t[j]).0 by {
            assert(t[i] == s[i + 1] && t[j] == s[j + 1]);
        }
        lemma_insert_desc_sorted(t, x);
        let r = insert_desc(t, x);
        let whole = seq![s[0]] + r;
        assert forall|i: int| 0 <= i < whole.len() implies (#[trigger] whole[i]).0 == x.0
            || exists|j: int| 0 <= j < s.len() && s[j].0 == whole[i].0 by {
            if i == 0 {
                assert(s[0].0 == whole[0].0);
            } else {
                assert(whole[i] == r[i - 1]);
                if r[i - 1].0 != x.0 {
                    let j = choose|j: int| 0 <= j < t.len() && t[j].0 == r[i - 1].0;
                    assert(s[j + 1] == t[j]);
                }
            }
        }
        assert forall|i: int, j: int| 0 <= i < j < whole.len() implies (#[trigger] whole[i]).0 >= (#[trigger] whole[j]).0 by {
            if i == 0 {
                assert(whole[j] == r[j - 1]);
                if r[j - 1].0 != x.0 {
                    let k = choose|k: int| 0 <= k < t.len() && t[k].0 == r[j - 1].0;
                    assert(s[k + 1] == t[k]);
                }
            } else {
                assert(whole[i] == r[i - 1] && whole[j] == r[j - 1]);
            }
        }
    } else if s.len() > 0 {
        let whole = seq![x] + s;
        assert forall|i: int, j: int| 0 <= i < j < whole.len() implies (#[trigger] whole[i]).0 >= (#[trigger] whole[j]).0 by {
            if i == 0 {
                assert(whole[j] == s[j - 1]);
                assert(s[0].0 >= s[j - 1].0 || j - 1 == 0);
            } else {
                assert(whole[i] == s[i - 1] && whole[j] == s[j - 1]);
            }
        }
        assert forall|i: int| 0 <= i < whole.len() implies (#[trigger] whole[i]).0 == x.0
            || exists|j: int| 0 <= j < s.len() && s[j].0 == whole[i].0 by {
            if i > 0 {
                assert(whole[i] == s[i - 1]);
            }
        }
    }
}

/// The command palette lists entries best score first.
pub proof fn law_palette_ranked<E>(s: Seq<(u32, E)>)
    ensures
        non_increasing(sort_desc(s)),
        sort_desc(s).len() == s.len(),
    decreases s.len(),
{
    if s.len() > 0 {
        law_palette_ranked(s.drop_last());
        lemma_insert_desc_sorted(sort_desc(s.drop_last()), s.last());
    }
}

/// Every new stats stream is for a running container that has no kept
/// stream, and no container gets two.
pub proof fn law_spawned_streams(s: Seq<ContainerView>, kept: Seq<Seq<char>>)
    ensures
        forall|i: int| 0 <= i < to_spawn(s, kept).len() ==> running_id(s, #[trigger] to_spawn(s, kept)[i])
            && !kept.contains(to_spawn(s, kept)[i]),
        forall|i: int, j: int| 0 <= i < j < to_spawn(s, kept).len() ==> #[trigger] to_spawn(s, kept)[i]
            != #[trigger] to_spawn(s, kept)[j],
    decreases s.len(),
{
    if s.len() > 0 {
        let init = s.drop_last();
        law_spawned_streams(init, kept);
        let p = to_spawn(init, kept);
        let r = to_spawn(s, kept);
        assert forall|i: int| 0 <= i < r.len() implies running_id(s, #[trigger] r[i]) && !kept.contains(r[i]) by {
            if i < p.len() {
                assert(r[i] == p[i]);
                let k = choose|k: int| 0 <= k < init.len() && init[k].state == ContainerState::Running && #[trigger] init[k].id@ == p[i];
                assert(s[k] == init[k]);
            } else {
                assert(s[s.len() - 1].id@ == r[i]);
            }
        }
        assert forall|i: int, j: int| 0 <= i < j < r.len() implies #[trigger] r[i] != #[trigger] r[j] by {
            if j < p.len() {
                assert(r[i] == p[i] && r[j] == p[j]);
            } else {
                assert(r[i] == p[i]);
                assert(p.contains(p[i]));
            }
        }
    }
}


/// The CPU figure depends only on how far the two samples' counters moved.
/// When both advanced it is the container's CPU time over the system's,
/// times the CPU count, times 100% (in hundredths, rounded down), capped at
/// 100% per CPU; moving both samples' system counters, or both samples'
/// container counters, by the same amount leaves it unchanged.
pub proof fn law_cpu_percent_from_deltas(prev: StatsSnapshot, curr: StatsSnapshot, k: u64)
    ensures
        curr.system_cpu > prev.system_cpu && curr.cpu_total > prev.cpu_total ==> cpu_hundredths(prev, curr) == ({
            let raw = (curr.cpu_total - prev.cpu_total) * curr.online_cpus * 10000 / (curr.system_cpu
                - prev.system_cpu);
            let cap = curr.online_cpus * 10000;
            if raw <= cap { raw } else { cap }
        }),
        prev.system_cpu + k <= u64::MAX && curr.system_cpu + k <= u64::MAX ==> cpu_hundredths(
            StatsSnapshot { system_cpu: (prev.system_cpu + k) as u64, ..prev },
            StatsSnapshot { system_cpu: (curr.system_cpu + k) as u64, ..curr },
        ) == cpu_hundredths(prev, curr),
        prev.cpu_total + k <= u64::MAX && curr.cpu_total + k <= u64::MAX ==> cpu_hundredths(
            StatsSnapshot { cpu_total: (prev.cpu_total + k) as u64, ..prev },
            StatsSnapshot { cpu_total: (curr.cpu_total + k) as u64, ..curr },
        ) == cpu_hundredths(prev, curr),
{
}

/// Each container key sends the command it names for the container under
/// the active host's cursor: `s` starts, `S` stops, `r` restarts, `x`
/// removes and `e` opens a shell in that container (by its id), and `p`
/// pulls its image. A command that needs confirmation waits in the dialog
/// with its label; any other is handed, alone, to the active host's
/// channel, and no dialog opens.
pub proof fn law_container_keys_send_their_command(s: AppState, t: AppState, c: char, quit: bool)
    requires
        s.pending_action is None,
        s.mode == AppMode::Normal,
        s.hosts@.len() > 0,
        s.hosts@[s.active_tab as int].containers@.len() > 0,
        c == 's' || c == 'S' || c == 'r' || c == 'x' || c == 'e' || c == 'p',
        key_effect(s, t, KeyInput { code: KeyCode::Char(c), ctrl: false }, quit),
    ensures
        !quit,
        ({
            let h = s.hosts@[s.active_tab as int];
            let cont = h.containers@[h.selected as int];
            let want = if c == 's' {
                HostCommand::StartContainer(cont.id)
            } else if c == 'S' {
                HostCommand::StopContainer(cont.id)
            } else if c == 'r' {
                HostCommand::RestartContainer(cont.id)
            } else if c == 'x' {
                HostCommand::RemoveContainer(cont.id)
            } else if c == 'e' {
                HostCommand::ExecShell(cont.id)
            } else {
                HostCommand::PullImage(cont.image)
            };
            if want.spec_needs_confirmation(s.safe_mode) {
                t.pending_action matches Some(p) && p.command == want && p.host_index == s.active_tab
                    && p.label@ == want.spec_label() && t.command_tx == s.command_tx
            } else {
                &&& t.pending_action is None
                &&& t.command_tx@.len() == s.command_tx@.len()
                &&& s.active_tab < s.command_tx@.len() ==> t.command_tx@[s.active_tab as int].sent_log()
                    == s.command_tx@[s.active_tab as int].sent_log().push(want)
            }
        }),
{
}

/// Every move into the Connected phase reports `Connected` to the main
/// loop, so a host's tab never keeps showing an old status once its worker
/// is connected.
pub proof fn law_connection_is_reported(phase: WorkerPhase, e: WorkerEvent, acts: Seq<WorkerAction>)
    requires
        phase != WorkerPhase::Connected,
        next_phase(phase, e) == WorkerPhase::Connected,
        step_actions(phase, e, acts),
    ensures
        exists|i: int| 0 <= i < acts.len() && #[trigger] acts[i] matches WorkerAction::EmitStatus(HostStatus::Connected),
{
    assert(acts[0] matches WorkerAction::EmitStatus(HostStatus::Connected));
}

/// Opening the log panel with `l` on a container shows that container's
/// tail from an empty panel: right after the key the panel holds no line
/// and its source is that container of the active host.
pub proof fn law_log_panel_starts_empty(s: AppState, t: AppState, quit: bool)
    requires
        s.pending_action is None,
        s.mode == AppMode::Normal,
        s.hosts@.len() > 0,
        s.hosts@[s.active_tab as int].containers@.len() > 0,
        key_effect(s, t, KeyInput { code: KeyCode::Char('l'), ctrl: false }, quit),
    ensures
        !quit,
        t.mode == AppMode::Logs,
        t.log_buffer@.len() == 0,
        t.log_source == Some(
            (
                s.active_tab,
                s.hosts@[s.active_tab as int].containers@[s.hosts@[s.active_tab as int].selected as int].id,
            ),
        ),
{
}

/// The log panel only ever gains lines of the container it tails: an update
/// changes it only when it is a log line of the source container from the
/// source host, and then that line becomes the newest.
pub proof fn law_log_panel_takes_only_its_source(s: AppState, idx: usize, u: HostUpdate)
    ensures
        buffer_after(s, idx, u) != s.log_buffer@ ==> (u matches HostUpdate::LogLine { id, line } && (
            s.log_source matches Some((i, sid)) && i == idx && sid@ == id@
        ) && buffer_after(s, idx, u).last() == line),
{
}


proof fn lemma_filter_keeps<A>(s: Seq<A>, pred: spec_fn(A) -> bool, p: spec_fn(A) -> bool)
    requires
        forall|i: int| 0 <= i < s.len() ==> p(#[trigger] s[i]),
    ensures
        forall|i: int| 0 <= i < s.filter(pred).len() ==> p(#[trigger] s.filter(pred)[i]) && pred(s.filter(pred)[i]),
    decreases s.len(),
{
    if s.len() == 0 {
        s.lemma_filter_len(pred);
    } else {
        let t = s.drop_last();
        assert forall|i: int| 0 <= i < t.len() implies p(#[trigger] t[i]) by {
            assert(t[i] == s[i]);
        }
        lemma_filter_keeps(t, pred, p);
        assert(t.push(s.last()) =~= s);
        t.lemma_filter_push(s.last(), pred);
        let f = s.filter(pred);
        assert forall|i: int| 0 <= i < f.len() implies p(#[trigger] f[i]) && pred(f[i]) by {
            if pred(s.last()) {
                if i < t.filter(pred).len() {
                    assert(f[i] == t.filter(pred)[i]);
                } else {
                    assert(f[i] == s.last());
                }
            } else {
                assert(f[i] == t.filter(pred)[i]);
            }
        }
    }
}

proof fn lemma_insert_desc_keeps<E>(s: Seq<(u32, E)>, x: (u32, E), p: spec_fn(E) -> bool)
    requires
        forall|i: int| 0 <= i < s.len() ==> p((#[trigger] s[i]).1),
        p(x.1),
    ensures
        forall|i: int| 0 <= i < insert_desc(s, x).len() ==> p((#[trigger] insert_desc(s, x)[i]).1),
    decreases s.len(),
{
    if s.len() > 0 && s[0].0 >= x.0 {
        let t = s.drop_first();
        assert forall|i: int| 0 <= i < t.len() implies p((#[trigger] t[i]).1) by {
            assert(t[i] == s[i + 1]);
        }
        lemma_insert_desc_keeps(t, x, p);
        let whole = seq![s[0]] + insert_desc(t, x);
        assert forall|i: int| 0 <= i < whole.len() implies p((#[trigger] whole[i]).1) by {
            if i > 0 {
                assert(whole[i] == insert_desc(t, x)[i - 1]);
            }
        }
    } else if s.len() > 0 {
        let whole = seq![x] + s;
        assert forall|i: int| 0 <= i < whole.len() implies p((#[trigger] whole[i]).1) by {
            if i > 0 {
                assert(whole[i] == s[i - 1]);
            }
        }
    }
}

proof fn lemma_sort_desc_keeps<E>(s: Seq<(u32, E)>, p: spec_fn(E) -> bool)
    requires
        forall|i: int| 0 <= i < s.len() ==> p((#[trigger] s[i]).1),
    ensures
        forall|i: int| 0 <= i < sort_desc(s).len() ==> p((#[trigger] sort_desc(s)[i]).1),
    decreases s.len(),
{
    if s.len() > 0 {
        let t = s.drop_last();
        assert forall|i: int| 0 <= i < t.len() implies p((#[trigger] t[i]).1) by {
            assert(t[i] == s[i]);
        }
        lemma_sort_desc_keeps(t, p);
        lemma_insert_desc_keeps(sort_desc(t), s.last(), p);
    }
}

/// Whether a palette entry's command can be carried out on a container
/// that is (or is not) running: stopping, restarting and opening a shell
/// need a running container, starting a stopped one.
pub open spec fn possible_on(e: (Seq<char>, Seq<char>, HostCommand, bool), running: bool) -> bool {
    &&& (e.2 is StopContainer || e.2 is RestartContainer || e.2 is ExecShell) ==> running
    &&& e.2 is StartContainer ==> !running
}

/// The command palette only offers what can be done to the container: for
/// a stopped container it never shows stop, restart or exec, for a running
/// one never start, whatever the query.
pub proof fn law_palette_offers_only_possible_actions(query: Seq<char>, id: String, image: String, running: bool)
    ensures
        forall|k: int| 0 <= k < ranked(query, palette_for(id, image, running)).len() ==> possible_on(
            #[trigger] ranked(query, palette_for(id, image, running))[k],
            running,
        ),
{
    let es = palette_for(id, image, running);
    let av = |e: (Seq<char>, Seq<char>, HostCommand, bool)| e.3 ==> possible_on(e, running);
    let lp = |e: (Seq<char>, Seq<char>, HostCommand, bool)| listed(query, e);
    assert forall|i: int| 0 <= i < es.len() implies av(#[trigger] es[i]) by {
        assert(es[0].2 is StartContainer && es[0].3 == !running);
        assert(es[1].2 is StopContainer && es[1].3 == running);
        assert(es[2].2 is RestartContainer && es[2].3 == running);
        assert(es[3].2 is RemoveContainer);
        assert(es[4].2 is ExecShell && es[4].3 == running);
        assert(es[5].2 is PullImage);
    }
    lemma_filter_keeps(es, lp, av);
    let f = es.filter(lp);
    let sc = scored(query, es);
    let ok = |e: (Seq<char>, Seq<char>, HostCommand, bool)| possible_on(e, running);
    assert(sc == f.map_values(|e: (Seq<char>, Seq<char>, HostCommand, bool)| (score_of(query, e.0) as u32, e)));
    assert forall|i: int| 0 <= i < sc.len() implies ok((#[trigger] sc[i]).1) by {
        assert(sc[i].1 == f[i]);
        assert(av(f[i]) && lp(f[i]));
    }
    lemma_sort_desc_keeps(sc, ok);
    let r = ranked(query, es);
    assert forall|k: int| 0 <= k < r.len() implies possible_on(#[trigger] r[k], running) by {
        assert(r[k] == sort_desc(sc)[k].1);
        assert(ok(sort_desc(sc)[k].1));
    }
}

} // verus!
