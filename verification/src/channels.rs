//! The channels between the main loop and the host workers, each with a
//! record of what crossed it: the commands handed to a worker, and the
//! outcome of every read of a worker's updates.
use tokio::sync::mpsc::{Receiver, Sender};
use vstd::prelude::*;
use crate::messages::{HostCommand, HostUpdate};

verus! {

#[verifier::external_type_specification]
#[verifier::external_body]
#[verifier::reject_recursive_types(T)]
pub struct ExSender<T>(Sender<T>);

#[verifier::external_type_specification]
#[verifier::external_body]
#[verifier::reject_recursive_types(T)]
pub struct ExReceiver<T>(Receiver<T>);

/// The sending end of a host's command channel.
pub struct CommandChannel {
    tx: Sender<HostCommand>,
    /// Every command handed to the channel so far, oldest first.
    sent: Ghost<Seq<HostCommand>>,
}

impl CommandChannel {
    /// The sender the channel hands commands to.
    pub closed spec fn sender(&self) -> Sender<HostCommand> {
        self.tx
    }

    /// Every command handed to the channel so far, oldest first.
    pub closed spec fn sent_log(&self) -> Seq<HostCommand> {
        self.sent@
    }

    /// Wraps a sender; nothing has been sent yet.
    pub fn new(tx: Sender<HostCommand>) -> (c: Self)
        ensures
            c.sender() == tx,
            c.sent_log().len() == 0,
    {
        CommandChannel { tx, sent: Ghost(Seq::empty()) }
    }

    /// Calls tokio's `Sender::try_send`, which hands `cmd` to the channel
    /// without waiting (`try_send` takes the sender by shared reference, so
    /// the channel keeps its sender); the record of sent commands grows by
    /// `cmd`. Whether
    /// the channel takes it (it refuses when full or closed) depends on the
    /// channel at that moment and is not stated; the caller ignores it.
    #[verifier::external_body]
    pub(crate) fn try_send(&mut self, cmd: HostCommand)
        ensures
            final(self).sent_log() == old(self).sent_log().push(cmd),
            final(self).sender() == old(self).sender(),
    {
        let _ = self.tx.try_send(cmd);
    }
}

/// The receiving end of a host's update channel.
pub struct UpdateChannel {
    rx: Receiver<HostUpdate>,
    /// The outcome of every read so far, oldest first: the update read, or
    /// `None` where the channel had nothing queued.
    reads: Ghost<Seq<Option<HostUpdate>>>,
    /// Every queue length `queued` reported so far, oldest first.
    asks: Ghost<Seq<nat>>,
}

impl UpdateChannel {
    /// The outcome of every read so far, oldest first.
    pub closed spec fn read_log(&self) -> Seq<Option<HostUpdate>> {
        self.reads@
    }

    /// Every queue length `queued` reported so far, oldest first.
    pub closed spec fn queue_reports(&self) -> Seq<nat> {
        self.asks@
    }

    /// Wraps a receiver; nothing has been read yet.
    pub fn new(rx: Receiver<HostUpdate>) -> (c: Self)
        ensures
            c.read_log().len() == 0,
            c.queue_reports().len() == 0,
    {
        UpdateChannel { rx, reads: Ghost(Seq::empty()), asks: Ghost(Seq::empty()) }
    }

    /// Calls tokio's `Receiver::len`: the number of updates queued at that
    /// moment, which depends on the worker and is recorded as reported.
    #[verifier::external_body]
    pub(crate) fn queued(&mut self) -> (n: usize)
        ensures
            final(self).read_log() == old(self).read_log(),
            final(self).queue_reports() == old(self).queue_reports().push(n as nat),
    {
        self.rx.len()
    }

    /// Calls tokio's `Receiver::try_recv`: the next queued update, if any,
    /// without waiting (`None` when nothing is queued or the worker is
    /// gone). What comes back depends on the worker; it is recorded.
    #[verifier::external_body]
    pub(crate) fn try_recv(&mut self) -> (r: Option<HostUpdate>)
        ensures
            final(self).read_log() == old(self).read_log().push(r),
            final(self).queue_reports() == old(self).queue_reports(),
    {
        self.rx.try_recv().ok()
    }
}

} // verus!
