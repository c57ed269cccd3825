use vstd::prelude::*;
use parking_lot::lock_api::RwLock;
use std::sync::mpsc::SyncSender;
use std::sync::Arc;
use crate::command::Command;

verus! {

/// parking_lot's reader/writer lock (through `lock_api`), opaque here: it only
/// carries the shared pool cells.
#[verifier::external_type_specification]
#[verifier::external_body]
#[verifier::reject_recursive_types(R)]
#[verifier::reject_recursive_types(T)]
pub struct ExRwLock<R, T: ?Sized>(RwLock<R, T>);

/// parking_lot's raw lock, the parameter of its `RwLock`; opaque here.
#[verifier::external_type_specification]
#[verifier::external_body]
pub struct ExRawRwLock(parking_lot::RawRwLock);

/// std's bounded channel sender, opaque here: commands go through it.
#[verifier::external_type_specification]
#[verifier::external_body]
#[verifier::reject_recursive_types(T)]
pub struct ExSyncSender<T>(SyncSender<T>);

/// Relies on parking_lot's `RwLock::read`: the value is copied (by the pool
/// type's own `Clone`) while shared access is held, so the copy is one state
/// of the cell that no writer was in the middle of. Which state it is depends
/// on the other threads, so nothing more is stated.
#[verifier::external_body]
pub(crate) fn read_snapshot<T: Clone>(lock: &Arc<parking_lot::RwLock<T>>) -> (r: T) {
    lock.read().clone()
}

/// One end of a worker's command channel, with the record of every command
/// this handle has handed to it, in order.
pub struct CommandSender {
    sender: SyncSender<Command>,
    handed: Ghost<Seq<Command>>,
}

impl CommandSender {
    /// The channel this handle feeds.
    pub closed spec fn channel(self) -> SyncSender<Command> {
        self.sender
    }

    /// The commands this handle has handed to its channel, oldest first.
    pub closed spec fn handed(self) -> Seq<Command> {
        self.handed@
    }

    /// A handle on `sender` that has handed nothing yet.
    pub fn new(sender: SyncSender<Command>) -> (r: CommandSender)
        ensures
            r.channel() == sender,
            r.handed() == Seq::<Command>::empty(),
    {
        CommandSender { sender, handed: Ghost(Seq::empty()) }
    }

    /// A second handle on the same channel, with a record of its own.
    pub fn duplicate(&self) -> (r: CommandSender)
        ensures
            r.channel() == self.channel(),
            r.handed() == Seq::<Command>::empty(),
    {
        CommandSender { sender: clone_sender(&self.sender), handed: Ghost(Seq::empty()) }
    }
}

/// Relies on std's `SyncSender::send`: the command is handed to the channel
/// (the call may wait while the channel is full); the result is `Ok` when it
/// was queued and `Err` when the receiving end is gone. Which of the two
/// depends on the worker thread, so only the hand-over is stated.
#[verifier::external_body]
pub(crate) fn send_command(chan: &mut CommandSender, cmd: Command) -> (sent: bool)
    ensures
        final(chan).handed() == old(chan).handed().push(cmd),
        final(chan).channel() == old(chan).channel(),
{
    chan.sender.send(cmd).is_ok()
}

/// Relies on std's `Clone` for `SyncSender`: a second sender on the same
/// channel, so the same value as far as this crate can tell.
#[verifier::external_body]
fn clone_sender(sender: &SyncSender<Command>) -> (r: SyncSender<Command>)
    ensures
        r == *sender,
{
    sender.clone()
}

/// Relies on std's `Arc::clone`: a second pointer to the same allocation.
#[verifier::external_body]
pub(crate) fn share<T>(cell: &Arc<T>) -> (r: Arc<T>)
    ensures
        r == *cell,
{
    Arc::clone(cell)
}

} // verus!
