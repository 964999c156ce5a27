//! Interaction state shared by the event loop and the renderer: modes,
//! pending confirmations and transient status messages.
use vstd::prelude::*;
use crate::colour::Colour;
use crate::messages::HostCommand;

verus! {

/// Ticks a status message stays on screen (one tick per second).
pub const STATUS_TTL_TICKS: u8 = 3;

/// The input mode, which decides how keys are read.
#[derive(Debug, Clone, Copy, PartialEq, Eq, Structural)]
pub enum AppMode {
    Normal,
    Logs,
    Command,
    HostManager,
    Help,
}

/// Severity of a status message.
#[derive(Debug, Clone, Copy, PartialEq, Eq, Structural)]
pub enum MessageLevel {
    Info,
    Warn,
    Error,
}

/// A command held back until the user confirms it.
#[derive(Debug)]
pub struct PendingAction {
    pub label: String,
    pub command: HostCommand,
    pub host_index: usize,
}

/// A transient message in the status line.
#[derive(Debug)]
pub struct StatusMessage {
    pub text: String,
    pub level: MessageLevel,
    pub ttl_ticks: u8,
}

impl MessageLevel {
    pub open spec fn spec_colour(&self) -> Colour {
        match self {
            MessageLevel::Info => Colour::Gray,
            MessageLevel::Warn => Colour::Yellow,
            MessageLevel::Error => Colour::Red,
        }
    }

    pub fn colour(&self) -> (c: Colour)
        ensures
            c == self.spec_colour(),
    {
        match self {
            MessageLevel::Info => Colour::Gray,
            MessageLevel::Warn => Colour::Yellow,
            MessageLevel::Error => Colour::Red,
        }
    }
}

impl StatusMessage {
    /// A message that lasts `STATUS_TTL_TICKS` ticks.
    pub fn new(text: String, level: MessageLevel) -> (m: Self)
        ensures
            m.text == text,
            m.level == level,
            m.ttl_ticks == STATUS_TTL_TICKS,
    {
        StatusMessage { text, level, ttl_ticks: STATUS_TTL_TICKS }
    }

    pub fn is_expired(&self) -> (b: bool)
        ensures
            b == (self.ttl_ticks == 0),
    {
        self.ttl_ticks == 0
    }

    /// One tick less to live, never below zero.
    pub fn decrement(&mut self)
        ensures
            final(self).text == old(self).text,
            final(self).level == old(self).level,
            final(self).ttl_ticks == if old(self).ttl_ticks > 0 { old(self).ttl_ticks - 1 } else { 0 },
    {
        self.ttl_ticks = self.ttl_ticks.saturating_sub(1);
    }
}

} // verus!
