//! The central application state and every mutation the event loop makes
//! to it: tab navigation, updates from hosts, command dispatch with its
//! confirmation gate, modes, and status messages.
use std::collections::VecDeque;
use tokio::sync::mpsc::Sender;
use vstd::prelude::*;
use crate::channels::{CommandChannel, UpdateChannel};
use crate::config::AppConfig;
use crate::container::{ring_push, ContainerView, SPARKLINE_LEN};
use crate::host::{bounded_append, first_with_id, HostState, HostStatus, LOG_BUFFER_CAPACITY};
use crate::messages::{HostCommand, HostUpdate};
use crate::text::{decimal, push_decimal};
use crate::ui_state::{AppMode, MessageLevel, PendingAction, StatusMessage, STATUS_TTL_TICKS};

verus! {

/// Everything the event loop mutates and the renderer reads.
pub struct AppState {
    pub hosts: Vec<HostState>,
    pub command_tx: Vec<CommandChannel>,
    pub active_tab: usize,
    pub mode: AppMode,
    pub safe_mode: bool,
    pub log_buffer: VecDeque<String>,
    pub log_follow: bool,
    pub log_filter: Option<String>,
    pub log_scroll: u16,
    /// Lines of history asked for when a log tail starts.
    pub log_tail_lines: u64,
    /// The host index and container id whose log lines fill `log_buffer`.
    pub log_source: Option<(usize, String)>,
    /// Whether log lines are shown with their timestamps.
    pub log_timestamps: bool,
    /// Whether keys typed in Logs mode edit the log filter.
    pub filter_editing: bool,
    pub show_details: bool,
    pub pending_action: Option<PendingAction>,
    pub command_query: String,
    pub status_message: Option<StatusMessage>,
}

/// The command channels `t` are `s` after handing `cmd` to channel `idx`:
/// that channel's record grows by `cmd` and no other channel changes (a
/// host without a channel gets nothing).
pub open spec fn handed(s: Seq<CommandChannel>, t: Seq<CommandChannel>, idx: usize, cmd: HostCommand) -> bool {
    &&& t.len() == s.len()
    &&& forall|i: int| 0 <= i < s.len() && i != idx ==> #[trigger] t[i] == s[i]
    &&& idx < s.len() ==> t[idx as int].sent_log() == s[idx as int].sent_log().push(cmd)
}

/// The tab after `t` among `n` tabs, wrapping to the first.
pub open spec fn next_tab_index(t: nat, n: nat) -> nat {
    if n == 0 { t } else if t + 1 >= n { 0 } else { t + 1 }
}

/// The tab before `t` among `n` tabs, wrapping to the last.
pub open spec fn prev_tab_index(t: nat, n: nat) -> nat {
    if n == 0 { t } else if t == 0 { (n - 1) as nat } else { (t - 1) as nat }
}

/// The status message after one tick: one tick less to live, gone once
/// that reaches zero.
pub open spec fn status_after_tick(m: Option<StatusMessage>) -> Option<StatusMessage> {
    match m {
        None => None,
        Some(msg) => if msg.ttl_ticks <= 1 {
            None
        } else {
            Some(StatusMessage { ttl_ticks: (msg.ttl_ticks - 1) as u8, ..msg })
        },
    }
}

/// `h2` is `h` after the host update `u`.
#[verifier::opaque]
pub open spec fn host_after_update(h: HostState, h2: HostState, u: HostUpdate) -> bool {
    match u {
        HostUpdate::ContainerList(cs) => h2 == HostState { containers: cs, selected: 0, ..h },
        HostUpdate::StatsUpdate { id, cpu, mem, net_rx, net_tx } => {
            &&& h2 == HostState { containers: h2.containers, ..h }
            &&& h2.containers@.len() == h.containers@.len()
            &&& match first_with_id(h.containers.deep_view(), id@) {
                Some(i) => h2.containers.deep_view() == h.containers.deep_view().update(
                    i,
                    ContainerView {
                        cpu_percent: cpu,
                        mem_usage: mem,
                        net_rx: net_rx,
                        net_tx: net_tx,
                        cpu_history: ring_push(h.containers.deep_view()[i].cpu_history, cpu, SPARKLINE_LEN as nat),
                        mem_history: ring_push(h.containers.deep_view()[i].mem_history, mem, SPARKLINE_LEN as nat),
                        ..h.containers.deep_view()[i]
                    },
                ),
                None => h2.containers.deep_view() == h.containers.deep_view(),
            }
        },
        HostUpdate::LogLine { id, line } => {
            &&& h2 == HostState { containers: h2.containers, ..h }
            &&& h2.containers@.len() == h.containers@.len()
            &&& match first_with_id(h.containers.deep_view(), id@) {
                Some(i) => h2.containers.deep_view() == h.containers.deep_view().update(
                    i,
                    ContainerView {
                        log_lines: bounded_append(h.containers.deep_view()[i].log_lines, line),
                        ..h.containers.deep_view()[i]
                    },
                ),
                None => h2.containers.deep_view() == h.containers.deep_view(),
            }
        },
        HostUpdate::StatusChange(st) => h2 == HostState { status: st, ..h },
        HostUpdate::ActionFailed(_) => h2 == h,
    }
}

/// `t` is `s` after applying update `u` from the worker of host `idx`
/// (what `AppState::apply_update` does).
pub open spec fn update_applied(s: AppState, t: AppState, idx: usize, u: HostUpdate) -> bool {
    &&& t.hosts@.len() == s.hosts@.len()
    &&& idx < s.hosts@.len() && u is ActionFailed ==> t == (AppState {
        status_message: Some(StatusMessage { text: u->ActionFailed_0, level: MessageLevel::Error, ttl_ticks: STATUS_TTL_TICKS }),
        ..s
    })
    &&& idx < s.hosts@.len() && !(u is ActionFailed) ==> {
        &&& t == (AppState { hosts: t.hosts, log_buffer: t.log_buffer, ..s })
        &&& t.log_buffer@ == buffer_after(s, idx, u)
        &&& forall|i: int| 0 <= i < s.hosts@.len() && i != idx ==> #[trigger] t.hosts@[i] == s.hosts@[i]
        &&& host_after_update(s.hosts@[idx as int], t.hosts@[idx as int], u)
    }
    &&& idx >= s.hosts@.len() ==> {
        &&& t == (AppState { status_message: t.status_message, ..s })
        &&& (t.status_message matches Some(m) && m.level == MessageLevel::Warn && m.ttl_ticks == STATUS_TTL_TICKS
            && m.text@ == "Received update for unknown host index "@ + decimal(idx as nat))
    }
}

/// The log panel's lines after update `u` from host `idx`: a log line of
/// the container being tailed is appended (the oldest dropped beyond
/// `LOG_BUFFER_CAPACITY`); anything else leaves them.
pub open spec fn buffer_after(s: AppState, idx: usize, u: HostUpdate) -> Seq<String> {
    match u {
        HostUpdate::LogLine { id, line } => if s.log_source matches Some((i, sid)) && i == idx && sid@ == id@ {
            bounded_append(s.log_buffer@, line)
        } else {
            s.log_buffer@
        },
        _ => s.log_buffer@,
    }
}

/// `states` walks through the updates of `log` (each with the index of
/// the worker it came from) in order: `states[k + 1]` is `states[k]` after
/// `log[k]`.
pub open spec fn updates_applied(states: Seq<AppState>, log: Seq<(usize, HostUpdate)>) -> bool {
    &&& states.len() == log.len() + 1
    &&& forall|k: int| 0 <= k < log.len() ==> update_applied(
        #[trigger] states[k],
        states[k + 1],
        log[k].0,
        log[k].1,
    )
}

/// The reads a channel saw between two of its states.
pub open spec fn new_reads(before: UpdateChannel, after: UpdateChannel) -> Seq<Option<HostUpdate>> {
    after.read_log().skip(before.read_log().len() as int)
}

/// The updates among a run of reads, in order.
pub open spec fn somes(r: Seq<Option<HostUpdate>>) -> Seq<HostUpdate>
    decreases r.len(),
{
    if r.len() == 0 {
        Seq::empty()
    } else {
        match r.last() {
            Some(u) => somes(r.drop_last()).push(u),
            None => somes(r.drop_last()),
        }
    }
}

/// Updates tagged with the index of the worker they came from.
pub open spec fn tagged(i: usize, us: Seq<HostUpdate>) -> Seq<(usize, HostUpdate)> {
    us.map_values(|u: HostUpdate| (i, u))
}

/// The updates read from the first `n` channels between `olds` and `news`,
/// channel after channel, each tagged with its channel's index.
pub open spec fn tick_log(olds: Seq<UpdateChannel>, news: Seq<UpdateChannel>, n: nat) -> Seq<(usize, HostUpdate)>
    decreases n,
{
    if n == 0 {
        Seq::empty()
    } else {
        tick_log(olds, news, (n - 1) as nat) + tagged(
            (n - 1) as usize,
            somes(new_reads(olds[n - 1], news[n - 1])),
        )
    }
}

/// Between `before` and `after` the channel was asked its queue length
/// once, then read until it reported empty or as many updates as that
/// fresh report counted had been read: all reads but the last gave an
/// update, and either exactly that many reads all gave one, or the last,
/// within that many reads, found nothing.
pub open spec fn read_until_empty(before: UpdateChannel, after: UpdateChannel) -> bool {
    let r = new_reads(before, after);
    let q = after.queue_reports().last();
    &&& after.queue_reports().len() == before.queue_reports().len() + 1
    &&& after.queue_reports().take(before.queue_reports().len() as int) == before.queue_reports()
    &&& after.read_log().len() >= before.read_log().len()
    &&& after.read_log().take(before.read_log().len() as int) == before.read_log()
    &&& forall|k: int| 0 <= k < r.len() - 1 ==> (#[trigger] r[k]) is Some
    &&& ((r.len() == q && (r.len() > 0 ==> r.last() is Some)) || (0 < r.len() <= q && r.last() is None))
}

proof fn lemma_tick_log_frame(olds: Seq<UpdateChannel>, a: Seq<UpdateChannel>, b: Seq<UpdateChannel>, n: nat)
    requires
        n <= a.len(),
        n <= b.len(),
        forall|i: int| 0 <= i < n ==> a[i] == b[i],
    ensures
        tick_log(olds, a, n) == tick_log(olds, b, n),
    decreases n,
{
    if n > 0 {
        lemma_tick_log_frame(olds, a, b, (n - 1) as nat);
    }
}

/// Applies one worker update to a host.
fn apply_host_update(h: &mut HostState, update: HostUpdate)
    requires
        old(h).well_formed(),
    ensures
        final(h).well_formed(),
        final(h).config == old(h).config,
        host_after_update(*old(h), *final(h), update),
{
    match update {
        HostUpdate::ContainerList(containers) => {
            h.apply_container_list(containers);
        },
        HostUpdate::StatsUpdate { id, cpu, mem, net_rx, net_tx } => {
            h.apply_stats_update(id.as_str(), cpu, mem, net_rx, net_tx);
        },
        HostUpdate::LogLine { id, line } => {
            h.append_log_line(id.as_str(), line);
        },
        HostUpdate::StatusChange(status) => {
            h.status = status;
        },
        HostUpdate::ActionFailed(_) => {},
    }
    proof {
        reveal(host_after_update);
    }
}

impl AppState {
    /// The tab index is on a host (or zero with no hosts) and every host's
    /// cursor is valid.
    pub open spec fn well_formed(&self) -> bool {
        &&& (self.hosts@.len() == 0 ==> self.active_tab == 0)
        &&& (self.hosts@.len() > 0 ==> self.active_tab < self.hosts@.len())
        &&& forall|i: int| 0 <= i < self.hosts@.len() ==> (#[trigger] self.hosts@[i]).well_formed()
    }

    /// One host per configured host, all connecting, on the first tab, in
    /// Normal mode, following logs, with the configured safe mode.
    pub fn new(config: AppConfig, command_tx: Vec<Sender<HostCommand>>) -> (s: Self)
        ensures
            s.well_formed(),
            s.hosts@.len() == config.hosts@.len(),
            forall|i: int| 0 <= i < s.hosts@.len() ==> {
                &&& (#[trigger] s.hosts@[i]).config == config.hosts@[i]
                &&& s.hosts@[i].status is Connecting
                &&& s.hosts@[i].containers@.len() == 0
                &&& s.hosts@[i].selected == 0
            },
            s.command_tx@.len() == command_tx@.len(),
            forall|i: int| 0 <= i < s.command_tx@.len() ==> (#[trigger] s.command_tx@[i]).sent_log().len() == 0
                && s.command_tx@[i].sender() == command_tx@[i],
            s.active_tab == 0,
            s.mode == AppMode::Normal,
            s.safe_mode == config.safe_mode,
            s.log_buffer@.len() == 0,
            s.log_follow,
            s.log_filter is None,
            s.log_scroll == 0,
            !s.log_timestamps,
            s.log_tail_lines == config.log_tail_lines,
            s.log_source is None,
            !s.filter_editing,
            !s.show_details,
            s.pending_action is None,
            s.command_query@.len() == 0,
            s.status_message is None,
    {
        let mut hosts: Vec<HostState> = Vec::new();
        let mut i: usize = 0;
        while i < config.hosts.len()
            invariant
                i <= config.hosts@.len(),
                hosts@.len() == i,
                forall|j: int| 0 <= j < i ==> {
                    &&& (#[trigger] hosts@[j]).config == config.hosts@[j]
                    &&& hosts@[j].status is Connecting
                    &&& hosts@[j].containers@.len() == 0
                    &&& hosts@[j].selected == 0
                },
            decreases config.hosts@.len() - i,
        {
            hosts.push(HostState::new(config.hosts[i].clone()));
            i = i + 1;
        }
        let mut channels: Vec<CommandChannel> = Vec::new();
        let ghost orig = command_tx@;
        let mut senders = command_tx;
        let ghost n = senders@.len();
        while senders.len() > 0
            invariant
                channels@.len() + senders@.len() == n,
                n == orig.len(),
                forall|j: int| 0 <= j < channels@.len() ==> (#[trigger] channels@[j]).sent_log().len() == 0
                    && channels@[j].sender() == orig[j],
                forall|j: int| 0 <= j < senders@.len() ==> #[trigger] senders@[j] == orig[channels@.len() + j],
            decreases senders@.len(),
        {
            let tx = senders.remove(0);
            channels.push(CommandChannel::new(tx));
        }
        let command_tx = channels;
        AppState {
            hosts,
            command_tx,
            active_tab: 0,
            mode: AppMode::Normal,
            safe_mode: config.safe_mode,
            log_buffer: VecDeque::new(),
            log_follow: true,
            log_filter: None,
            log_scroll: 0,
            log_timestamps: false,
            log_tail_lines: config.log_tail_lines,
            log_source: None,
            filter_editing: false,
            show_details: false,
            pending_action: None,
            command_query: String::new(),
            status_message: None,
        }
    }

    /// The host of the active tab.
    pub fn active_host(&self) -> (h: &HostState)
        requires
            self.well_formed(),
            self.hosts@.len() > 0,
        ensures
            *h == self.hosts@[self.active_tab as int],
            h.well_formed(),
    {
        &self.hosts[self.active_tab]
    }

    /// The host of the active tab, for changing it; `None` with no hosts.
    pub fn active_host_mut(&mut self) -> (h: Option<&mut HostState>)
        requires
            old(self).well_formed(),
        ensures
            old(self).hosts@.len() == 0 ==> h is None && *final(self) == *old(self),
            old(self).hosts@.len() > 0 ==> (h matches Some(r) && *r == old(self).hosts@[old(
                self,
            ).active_tab as int] && r.well_formed() && *final(self) == (AppState {
                hosts: final(self).hosts,
                ..*old(self)
            }) && final(self).hosts@ == old(self).hosts@.update(
                old(self).active_tab as int,
                *final(r),
            )),
    {
        if self.active_tab < self.hosts.len() {
            Some(&mut self.hosts[self.active_tab])
        } else {
            None
        }
    }

    /// Moves to the next host tab, wrapping around.
    pub fn next_tab(&mut self)
        requires
            old(self).well_formed(),
        ensures
            final(self).well_formed(),
            *final(self) == (AppState {
                active_tab: next_tab_index(old(self).active_tab as nat, old(self).hosts@.len()) as usize,
                ..*old(self)
            }),
    {
        if self.hosts.len() == 0 {
            return;
        } else if self.active_tab == self.hosts.len() - 1 {
            self.active_tab = 0;
        } else {
            self.active_tab += 1;
        }
    }

    /// Moves to the previous host tab, wrapping around.
    pub fn prev_tab(&mut self)
        requires
            old(self).well_formed(),
        ensures
            final(self).well_formed(),
            *final(self) == (AppState {
                active_tab: prev_tab_index(old(self).active_tab as nat, old(self).hosts@.len()) as usize,
                ..*old(self)
            }),
    {
        if self.hosts.len() == 0 {
            return;
        } else if self.active_tab == 0 {
            self.active_tab = self.hosts.len() - 1;
        } else {
            self.active_tab -= 1;
        }
    }

    /// Applies an update from host `host_idx`'s worker: a failed action is
    /// shown as an error in the status line, anything else changes that
    /// host; an index with no host only raises a warning in the status line.
    pub fn apply_update(&mut self, host_idx: usize, update: HostUpdate)
        requires
            old(self).well_formed(),
        ensures
            final(self).well_formed(),
            final(self).hosts@.len() == old(self).hosts@.len(),
            forall|i: int| 0 <= i < old(self).hosts@.len() ==> (#[trigger] final(self).hosts@[i]).config
                == old(self).hosts@[i].config,
            host_idx < old(self).hosts@.len() && update is ActionFailed ==> *final(self) == (AppState {
                status_message: Some(StatusMessage { text: update->ActionFailed_0, level: MessageLevel::Error, ttl_ticks: STATUS_TTL_TICKS }),
                ..*old(self)
            }),
            host_idx < old(self).hosts@.len() && !(update is ActionFailed) ==> {
                &&& *final(self) == (AppState { hosts: final(self).hosts, log_buffer: final(self).log_buffer, ..*old(self) })
                &&& final(self).log_buffer@ == buffer_after(*old(self), host_idx, update)
                &&& final(self).hosts@.len() == old(self).hosts@.len()
                &&& forall|i: int| 0 <= i < old(self).hosts@.len() && i != host_idx ==>
                    #[trigger] final(self).hosts@[i] == old(self).hosts@[i]
                &&& host_after_update(old(self).hosts@[host_idx as int], final(self).hosts@[host_idx as int], update)
            },
            host_idx >= old(self).hosts@.len() ==> {
                &&& *final(self) == (AppState { status_message: final(self).status_message, ..*old(self) })
                &&& (final(self).status_message matches Some(m) && m.level == MessageLevel::Warn
                    && m.ttl_ticks == STATUS_TTL_TICKS
                    && m.text@ == "Received update for unknown host index "@ + decimal(host_idx as nat))
            },
    {
        if host_idx >= self.hosts.len() {
            let mut text = String::from_str("Received update for unknown host index ");
            push_decimal(&mut text, host_idx as u64);
            self.set_status(text, MessageLevel::Warn);
            return;
        }
        if let HostUpdate::ActionFailed(text) = update {
            // A failed action is reported in the status line.
            self.set_status(text, MessageLevel::Error);
            return;
        }
        if let HostUpdate::LogLine { id, line } = &update {
            let tailed = match &self.log_source {
                Some((i, sid)) => *i == host_idx && crate::text::str_eq(sid.as_str(), id.as_str()),
                None => false,
            };
            if tailed {
                self.log_buffer.push_back(line.clone());
                if self.log_buffer.len() > LOG_BUFFER_CAPACITY {
                    self.log_buffer.pop_front();
                }
            }
        }
        let ghost before = self.hosts@;
        apply_host_update(&mut self.hosts[host_idx], update);
        proof {
            assert forall|i: int| 0 <= i < self.hosts@.len() implies (#[trigger] self.hosts@[i]).well_formed() by {
                if i != host_idx {
                    assert(self.hosts@[i] == before[i]);
                }
            }
        }
    }

    /// A tick of the event loop: reads each host's update channel (the
    /// channel at position `i` belongs to host `i`), one after the other,
    /// until it is empty or as many updates as it held when asked have been
    /// read, applies the updates in the order read, then ages the status
    /// message.
    pub fn on_tick(&mut self, update_rxs: &mut Vec<UpdateChannel>)
        requires
            old(self).well_formed(),
        ensures
            final(self).well_formed(),
            final(update_rxs)@.len() == old(update_rxs)@.len(),
            forall|i: int| 0 <= i < old(update_rxs)@.len() ==> read_until_empty(
                #[trigger] old(update_rxs)@[i],
                final(update_rxs)@[i],
            ),
            exists|states: Seq<AppState>|
                #![trigger updates_applied(states, tick_log(old(update_rxs)@, final(update_rxs)@, old(update_rxs)@.len()))]
                {
                    &&& updates_applied(states, tick_log(old(update_rxs)@, final(update_rxs)@, old(update_rxs)@.len()))
                    &&& states[0] == *old(self)
                    &&& *final(self) == (AppState {
                        status_message: status_after_tick(states.last().status_message),
                        ..states.last()
                    })
                },
    {
        let ghost olds = update_rxs@;
        let ghost mut states: Seq<AppState> = seq![*self];
        let ghost mut log: Seq<(usize, HostUpdate)> = Seq::empty();
        let mut idx: usize = 0;
        while idx < update_rxs.len()
            invariant
                update_rxs@.len() == olds.len(),
                olds == old(update_rxs)@,
                idx <= olds.len(),
                forall|i: int| idx <= i < olds.len() ==> #[trigger] update_rxs@[i] == olds[i],
                forall|i: int| 0 <= i < idx ==> read_until_empty(#[trigger] olds[i], update_rxs@[i]),
                log == tick_log(olds, update_rxs@, idx as nat),
                states[0] == *old(self),
                states.last() == *self,
                self.well_formed(),
                updates_applied(states, log),
            decreases olds.len() - idx,
        {
            let ghost before_ch = update_rxs@;
            let n = update_rxs[idx].queued();
            proof {
                assert(update_rxs@[idx as int].queue_reports().take(olds[idx as int].queue_reports().len() as int)
                    =~= olds[idx as int].queue_reports());
                lemma_tick_log_frame(olds, before_ch, update_rxs@, idx as nat);
                assert(new_reads(olds[idx as int], update_rxs@[idx as int]) =~= Seq::<Option<HostUpdate>>::empty());
                assert(somes(Seq::<Option<HostUpdate>>::empty()) =~= Seq::<HostUpdate>::empty());
                assert(log =~= tick_log(olds, update_rxs@, idx as nat) + tagged(idx, somes(new_reads(olds[idx as int], update_rxs@[idx as int]))));
            }
            let mut k: usize = 0;
            while k < n
                invariant_except_break
                    update_rxs@[idx as int].read_log().len() == olds[idx as int].read_log().len() + k,
                    forall|j: int| 0 <= j < k ==> (#[trigger] new_reads(olds[idx as int], update_rxs@[idx as int])[j]) is Some,
                invariant
                    update_rxs@.len() == olds.len(),
                    olds == old(update_rxs)@,
                    idx < olds.len(),
                    k <= n,
                    forall|i: int| idx < i < olds.len() ==> #[trigger] update_rxs@[i] == olds[i],
                    forall|i: int| 0 <= i < idx ==> read_until_empty(#[trigger] olds[i], update_rxs@[i]),
                    update_rxs@[idx as int].queue_reports().len() == olds[idx as int].queue_reports().len() + 1,
                    update_rxs@[idx as int].queue_reports().take(olds[idx as int].queue_reports().len() as int)
                        == olds[idx as int].queue_reports(),
                    update_rxs@[idx as int].queue_reports().last() == n as nat,
                    update_rxs@[idx as int].read_log().take(olds[idx as int].read_log().len() as int) == olds[idx as int].read_log(),
                    log == tick_log(olds, update_rxs@, idx as nat) + tagged(idx, somes(new_reads(olds[idx as int], update_rxs@[idx as int]))),
                    states[0] == *old(self),
                    states.last() == *self,
                    self.well_formed(),
                    updates_applied(states, log),
                ensures
                    update_rxs@.len() == olds.len(),
                    forall|i: int| idx < i < olds.len() ==> #[trigger] update_rxs@[i] == olds[i],
                    forall|i: int| 0 <= i < idx ==> read_until_empty(#[trigger] olds[i], update_rxs@[i]),
                    read_until_empty(olds[idx as int], update_rxs@[idx as int]),
                    log == tick_log(olds, update_rxs@, idx as nat) + tagged(idx, somes(new_reads(olds[idx as int], update_rxs@[idx as int]))),
                    states[0] == *old(self),
                    states.last() == *self,
                    self.well_formed(),
                    updates_applied(states, log),
                decreases n - k,
            {
                let ghost ch0 = update_rxs@;
                let ghost r0 = new_reads(olds[idx as int], ch0[idx as int]);
                let got = update_rxs[idx].try_recv();
                proof {
                    lemma_tick_log_frame(olds, ch0, update_rxs@, idx as nat);
                    let ob = olds[idx as int].read_log();
                    assert(new_reads(olds[idx as int], update_rxs@[idx as int]) =~= r0.push(got));
                    assert(update_rxs@[idx as int].read_log().take(ob.len() as int) =~= ob) by {
                        assert(update_rxs@[idx as int].read_log() == ch0[idx as int].read_log().push(got));
                        assert forall|j: int| 0 <= j < ob.len() implies update_rxs@[idx as int].read_log().take(ob.len() as int)[j] == ob[j] by {
                            assert(ch0[idx as int].read_log().take(ob.len() as int)[j] == ob[j]);
                        }
                    }
                    assert(r0.push(got).drop_last() =~= r0);
                }
                match got {
                    Some(update) => {
                        let ghost before = *self;
                        let ghost u = update;
                        self.apply_update(idx, update);
                        proof {
                            let next = log.push((idx, u));
                            let more = states.push(*self);
                            assert(update_applied(before, *self, idx, u));
                            assert forall|k4: int| 0 <= k4 < next.len() implies update_applied(
                                #[trigger] more[k4],
                                more[k4 + 1],
                                next[k4].0,
                                next[k4].1,
                            ) by {
                                if k4 < log.len() {
                                    assert(more[k4] == states[k4] && more[k4 + 1] == states[k4 + 1]);
                                    assert(next[k4] == log[k4]);
                                }
                            }
                            let nr = new_reads(olds[idx as int], update_rxs@[idx as int]);
                            assert(somes(nr) =~= somes(r0).push(u));
                            assert(tagged(idx, somes(nr)) =~= tagged(idx, somes(r0)).push((idx, u)));
                            assert(next =~= tick_log(olds, update_rxs@, idx as nat) + tagged(idx, somes(nr)));
                            assert forall|j: int| 0 <= j < k + 1 implies (#[trigger] nr[j]) is Some by {
                                if j < k {
                                    assert(nr[j] == r0[j]);
                                }
                            }
                            log = next;
                            states = more;
                        }
                    },
                    None => {
                        proof {
                            let nr = new_reads(olds[idx as int], update_rxs@[idx as int]);
                            assert(somes(nr) =~= somes(r0));
                            assert forall|j: int| 0 <= j < nr.len() - 1 implies (#[trigger] nr[j]) is Some by {
                                assert(nr[j] == r0[j]);
                            }
                        }
                        break;
                    },
                }
                k = k + 1;
            }
            proof {
                let nr = new_reads(olds[idx as int], update_rxs@[idx as int]);
                assert(tick_log(olds, update_rxs@, (idx + 1) as nat) == tick_log(olds, update_rxs@, idx as nat)
                    + tagged(idx, somes(nr)));
            }
            idx = idx + 1;
        }
        self.tick_status();
        assert(updates_applied(states, log));
    }

    /// Dispatches a command to host `host_idx`: a command that needs
    /// confirmation is held as the pending action, any other is handed to
    /// that host's command channel (if it has one).
    pub fn dispatch_command(&mut self, host_idx: usize, cmd: HostCommand)
        ensures
            cmd.spec_needs_confirmation(old(self).safe_mode) ==> {
                &&& *final(self) == (AppState { pending_action: final(self).pending_action, ..*old(self) })
                &&& (final(self).pending_action matches Some(p) && p.command == cmd && p.host_index == host_idx
                    && p.label@ == cmd.spec_label())
            },
            !cmd.spec_needs_confirmation(old(self).safe_mode) ==> {
                &&& *final(self) == (AppState { command_tx: final(self).command_tx, ..*old(self) })
                &&& handed(old(self).command_tx@, final(self).command_tx@, host_idx, cmd)
            },
    {
        if cmd.needs_confirmation(self.safe_mode) {
            let label = String::from_str(cmd.label());
            self.set_pending_action(PendingAction { label, command: cmd, host_index: host_idx });
            return;
        }
        self.send_command(host_idx, cmd);
    }

    /// Sends the pending action, if any, to its host without asking again,
    /// and clears it.
    pub fn confirm_pending_action(&mut self)
        ensures
            *final(self) == (AppState { pending_action: None, command_tx: final(self).command_tx, ..*old(self) }),
            match old(self).pending_action {
                Some(p) => handed(old(self).command_tx@, final(self).command_tx@, p.host_index, p.command),
                None => final(self).command_tx == old(self).command_tx,
            },
    {
        if let Some(action) = self.pending_action.take() {
            self.send_command(action.host_index, action.command);
        }
    }

    /// Hands `cmd` to host `host_idx`'s command channel, if it has one.
    fn send_command(&mut self, host_idx: usize, cmd: HostCommand)
        ensures
            *final(self) == (AppState { command_tx: final(self).command_tx, ..*old(self) }),
            handed(old(self).command_tx@, final(self).command_tx@, host_idx, cmd),
    {
        if host_idx < self.command_tx.len() {
            self.command_tx[host_idx].try_send(cmd);
        }
    }

    /// Switches mode; leaving (or re-entering) Command mode clears the query.
    pub fn set_mode(&mut self, mode: AppMode)
        ensures
            *final(self) == (AppState { mode: mode, command_query: final(self).command_query, ..*old(self) }),
            old(self).mode == AppMode::Command ==> final(self).command_query@.len() == 0,
            old(self).mode != AppMode::Command ==> final(self).command_query == old(self).command_query,
    {
        if self.mode == AppMode::Command {
            self.command_query = String::new();
        }
        self.mode = mode;
    }

    /// Flips safe mode and announces the new setting.
    pub fn toggle_safe_mode(&mut self)
        ensures
            *final(self) == (AppState {
                safe_mode: !old(self).safe_mode,
                status_message: final(self).status_message,
                ..*old(self)
            }),
            (final(self).status_message matches Some(m) && m.level == MessageLevel::Info
                && m.ttl_ticks == STATUS_TTL_TICKS
                && m.text@ == (if final(self).safe_mode { "Safe mode ON"@ } else { "Safe mode OFF"@ })),
    {
        self.safe_mode = !self.safe_mode;
        let msg = if self.safe_mode { "Safe mode ON" } else { "Safe mode OFF" };
        self.set_status(String::from_str(msg), MessageLevel::Info);
    }

    /// Shows or hides the detail panel.
    pub fn toggle_detail(&mut self)
        ensures
            *final(self) == (AppState { show_details: !old(self).show_details, ..*old(self) }),
    {
        self.show_details = !self.show_details;
    }

    pub fn set_pending_action(&mut self, action: PendingAction)
        ensures
            *final(self) == (AppState { pending_action: Some(action), ..*old(self) }),
    {
        self.pending_action = Some(action);
    }

    pub fn clear_pending_action(&mut self)
        ensures
            *final(self) == (AppState { pending_action: None, ..*old(self) }),
    {
        self.pending_action = None;
    }

    /// Shows a message in the status line for `STATUS_TTL_TICKS` ticks.
    pub fn set_status(&mut self, text: String, level: MessageLevel)
        ensures
            *final(self) == (AppState {
                status_message: Some(StatusMessage { text: text, level: level, ttl_ticks: STATUS_TTL_TICKS }),
                ..*old(self)
            }),
    {
        self.status_message = Some(StatusMessage::new(text, level));
    }

    /// Ages the status message by one tick, dropping it once it expires.
    pub fn tick_status(&mut self)
        ensures
            *final(self) == (AppState { status_message: status_after_tick(old(self).status_message), ..*old(self) }),
    {
        let mut expired = false;
        if let Some(msg) = &mut self.status_message {
            msg.decrement();
            if msg.is_expired() {
                expired = true;
            }
        }
        if expired {
            self.status_message = None;
        }
    }
}

} // verus!
