//! Messages crossing the boundary between the main loop and the per-host
//! workers, and the entries of the command palette.
use vstd::prelude::*;
use crate::container::ContainerInfo;
use crate::host::HostStatus;
use crate::keys::KeyInput;

verus! {

/// What a host worker reports to the main loop.
pub enum HostUpdate {
    ContainerList(Vec<ContainerInfo>),
    /// `cpu` is in hundredths of a percent; memory and network in bytes.
    StatsUpdate { id: String, cpu: u64, mem: u64, net_rx: u64, net_tx: u64 },
    LogLine { id: String, line: String },
    StatusChange(HostStatus),
    /// A request the worker carried out for the user failed; the text says
    /// what went wrong.
    ActionFailed(String),
}

/// What the main loop reacts to.
pub enum AppEvent {
    Tick,
    Key(KeyInput),
    HostUpdate(usize, HostUpdate),
    Resize(u16, u16),
}

/// What the main loop asks a host worker to do.
#[derive(Debug)]
pub enum HostCommand {
    StartContainer(String),
    StopContainer(String),
    RestartContainer(String),
    RemoveContainer(String),
    ExecShell(String),
    PullImage(String),
    TailLogs { id: String, lines: u64 },
    Shutdown,
}

/// An entry of the command palette.
pub struct PaletteAction {
    pub label: String,
    pub description: String,
    pub command: HostCommand,
    pub available: bool,
}

impl Clone for HostCommand {
    fn clone(&self) -> (r: Self)
        ensures
            r == *self,
    {
        match self {
            HostCommand::StartContainer(id) => HostCommand::StartContainer(id.clone()),
            HostCommand::StopContainer(id) => HostCommand::StopContainer(id.clone()),
            HostCommand::RestartContainer(id) => HostCommand::RestartContainer(id.clone()),
            HostCommand::RemoveContainer(id) => HostCommand::RemoveContainer(id.clone()),
            HostCommand::ExecShell(id) => HostCommand::ExecShell(id.clone()),
            HostCommand::PullImage(id) => HostCommand::PullImage(id.clone()),
            HostCommand::TailLogs { id, lines } => HostCommand::TailLogs { id: id.clone(), lines: *lines },
            HostCommand::Shutdown => HostCommand::Shutdown,
        }
    }
}

impl HostCommand {
    pub open spec fn spec_is_destructive(&self) -> bool {
        ||| self is StopContainer
        ||| self is RestartContainer
        ||| self is RemoveContainer
    }

    /// Whether the command waits for a `y` before it is sent: removal
    /// always, stop and restart while safe mode is on, nothing else.
    pub open spec fn spec_needs_confirmation(&self, safe_mode: bool) -> bool {
        ||| self is RemoveContainer
        ||| (safe_mode && self.spec_is_destructive())
    }

    pub open spec fn spec_label(&self) -> Seq<char> {
        match self {
            HostCommand::StartContainer(_) => "Start container"@,
            HostCommand::StopContainer(_) => "Stop container"@,
            HostCommand::RestartContainer(_) => "Restart container"@,
            HostCommand::RemoveContainer(_) => "Remove container"@,
            HostCommand::ExecShell(_) => "Exec shell"@,
            HostCommand::PullImage(_) => "Pull image"@,
            HostCommand::TailLogs { .. } => "Tail logs"@,
            HostCommand::Shutdown => "Shutdown"@,
        }
    }

    /// Stop, restart and remove change a running system.
    pub fn is_destructive(&self) -> (b: bool)
        ensures
            b == self.spec_is_destructive(),
    {
        match self {
            HostCommand::StopContainer(_) | HostCommand::RestartContainer(_)
            | HostCommand::RemoveContainer(_) => true,
            _ => false,
        }
    }

    /// See `spec_needs_confirmation`.
    pub fn needs_confirmation(&self, safe_mode: bool) -> (b: bool)
        ensures
            b == self.spec_needs_confirmation(safe_mode),
    {
        match self {
            HostCommand::RemoveContainer(_) => true,
            _ => safe_mode && self.is_destructive(),
        }
    }

    /// Human-readable name of the command.
    pub fn label(&self) -> (s: &str)
        ensures
            s@ == self.spec_label(),
    {
        match self {
            HostCommand::StartContainer(_) => "Start container",
            HostCommand::StopContainer(_) => "Stop container",
            HostCommand::RestartContainer(_) => "Restart container",
            HostCommand::RemoveContainer(_) => "Remove container",
            HostCommand::ExecShell(_) => "Exec shell",
            HostCommand::PullImage(_) => "Pull image",
            HostCommand::TailLogs { .. } => "Tail logs",
            HostCommand::Shutdown => "Shutdown",
        }
    }
}

} // verus!
