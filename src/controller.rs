use vstd::prelude::*;
use std::sync::mpsc::SyncSender;
use std::sync::Arc;
use crate::command::{BlockId, Command, Endorsement, EndorsementId, OperationId, Slot};
use crate::endorsement_pool::{EndorsementPool, block_fill, chosen_entries, endorsement_ids};
use crate::operation_pool::{OperationPool, is_block_choice, op_ids};
use crate::sync::{CommandSender, read_snapshot, send_command, share};

verus! {

/// The channel a command was meant for.
#[derive(Clone, Copy, Debug, PartialEq, Eq, Structural)]
pub enum PoolChannel {
    Operations,
    Endorsements,
}

/// The kind of command that could not be handed over.
#[derive(Clone, Copy, Debug, PartialEq, Eq, Structural)]
pub enum CommandKind {
    AddItems,
    FinalPeriods,
}

/// The one error this layer raises: a command could not be handed to a
/// worker because its receiving end is gone.
#[derive(Clone, Copy, Debug, PartialEq, Eq, Structural)]
pub enum PoolError {
    ChannelError(PoolChannel, CommandKind),
}

/// The human-readable text of an error.
pub open spec fn message_of(e: PoolError) -> Seq<char> {
    match e {
        PoolError::ChannelError(PoolChannel::Operations, CommandKind::AddItems) =>
            "could not give operations to add through pool channel"@,
        PoolError::ChannelError(PoolChannel::Endorsements, CommandKind::AddItems) =>
            "could not give endorsements to add through pool channel"@,
        PoolError::ChannelError(PoolChannel::Operations, CommandKind::FinalPeriods) =>
            "could not give consensus periods through operations pool channel"@,
        PoolError::ChannelError(PoolChannel::Endorsements, CommandKind::FinalPeriods) =>
            "could not give consensus periods through endorsements pool channel"@,
    }
}

impl PoolError {
    /// A human-readable account of the failure.
    pub fn message(&self) -> (r: String)
        ensures
            r@ == message_of(*self),
    {
        match self {
            PoolError::ChannelError(PoolChannel::Operations, CommandKind::AddItems) =>
                "could not give operations to add through pool channel".to_owned(),
            PoolError::ChannelError(PoolChannel::Endorsements, CommandKind::AddItems) =>
                "could not give endorsements to add through pool channel".to_owned(),
            PoolError::ChannelError(PoolChannel::Operations, CommandKind::FinalPeriods) =>
                "could not give consensus periods through operations pool channel".to_owned(),
            PoolError::ChannelError(PoolChannel::Endorsements, CommandKind::FinalPeriods) =>
                "could not give consensus periods through endorsements pool channel".to_owned(),
        }
    }
}

/// The result of one send: success, or the channel error naming the channel
/// and the command kind.
pub open spec fn send_result(sent: bool, channel: PoolChannel, kind: CommandKind) -> Result<(), PoolError> {
    if sent {
        Ok(())
    } else {
        Err(PoolError::ChannelError(channel, kind))
    }
}

/// The result of a notification sent on both channels: success when both
/// sends went through, else an error naming the first channel that failed.
pub open spec fn broadcast_result(ops_sent: bool, endorsements_sent: bool) -> Result<(), PoolError> {
    if !ops_sent {
        Err(PoolError::ChannelError(PoolChannel::Operations, CommandKind::FinalPeriods))
    } else if !endorsements_sent {
        Err(PoolError::ChannelError(PoolChannel::Endorsements, CommandKind::FinalPeriods))
    } else {
        Ok(())
    }
}

/// Maps the outcome of one send to the caller's result.
pub fn send_outcome(sent: bool, channel: PoolChannel, kind: CommandKind) -> (r: Result<(), PoolError>)
    ensures
        r == send_result(sent, channel, kind),
{
    if sent {
        Ok(())
    } else {
        Err(PoolError::ChannelError(channel, kind))
    }
}

/// Maps the outcomes of the two sends of a notification to the caller's result.
pub fn broadcast_outcome(ops_sent: bool, endorsements_sent: bool) -> (r: Result<(), PoolError>)
    ensures
        r == broadcast_result(ops_sent, endorsements_sent),
{
    if !ops_sent {
        Err(PoolError::ChannelError(PoolChannel::Operations, CommandKind::FinalPeriods))
    } else if !endorsements_sent {
        Err(PoolError::ChannelError(PoolChannel::Endorsements, CommandKind::FinalPeriods))
    } else {
        Ok(())
    }
}

/// The finality notification for the given periods (one per thread).
pub fn final_periods_command(periods: &[u64]) -> (r: Command)
    ensures
        r matches Command::NotifyFinalCsPeriods(p) && p@ == periods@,
{
    Command::NotifyFinalCsPeriods(vstd::slice::slice_to_vec(periods))
}

/// `after` is `before` with exactly one more command at its end.
pub open spec fn handed_one_more(before: Seq<Command>, after: Seq<Command>) -> bool {
    after.len() == before.len() + 1 && after.drop_last() == before
}

/// `c` is a finality notification carrying `periods`.
pub open spec fn is_notification(c: Command, periods: Seq<u64>) -> bool {
    c matches Command::NotifyFinalCsPeriods(p) && p@ == periods
}

/// Membership answers for `ids` against one set of pending ids.
pub open spec fn membership(items: Set<u64>, ids: Seq<u64>) -> Seq<bool> {
    Seq::new(ids.len(), |i: int| items.contains(ids[i]))
}

/// A cheaply cloned handle on both pools: reads go to the shared pool state
/// under its read lock, changes go as commands to the pool's worker.
pub struct PoolControllerImpl {
    operation_pool: Arc<parking_lot::RwLock<OperationPool>>,
    endorsement_pool: Arc<parking_lot::RwLock<EndorsementPool>>,
    operations_input_sender: CommandSender,
    endorsements_input_sender: CommandSender,
    endorsement_count: u32,
}

impl PoolControllerImpl {
    /// The shared cell that holds the operation pool.
    pub closed spec fn operations_cell(self) -> Arc<parking_lot::RwLock<OperationPool>> {
        self.operation_pool
    }

    /// The shared cell that holds the endorsement pool.
    pub closed spec fn endorsements_cell(self) -> Arc<parking_lot::RwLock<EndorsementPool>> {
        self.endorsement_pool
    }

    /// The channel that feeds the operations worker.
    pub closed spec fn operations_sender(self) -> SyncSender<Command> {
        self.operations_input_sender.channel()
    }

    /// The channel that feeds the endorsements worker.
    pub closed spec fn endorsements_sender(self) -> SyncSender<Command> {
        self.endorsements_input_sender.channel()
    }

    /// The commands this handle has handed to the operations channel.
    pub closed spec fn operations_handed(self) -> Seq<Command> {
        self.operations_input_sender.handed()
    }

    /// The commands this handle has handed to the endorsements channel.
    pub closed spec fn endorsements_handed(self) -> Seq<Command> {
        self.endorsements_input_sender.handed()
    }

    /// Both handles reach the same pools and channels, with the same
    /// configured endorsement count.
    pub open spec fn same_targets(self, other: PoolControllerImpl) -> bool {
        &&& self.operations_cell() == other.operations_cell()
        &&& self.endorsements_cell() == other.endorsements_cell()
        &&& self.operations_sender() == other.operations_sender()
        &&& self.endorsements_sender() == other.endorsements_sender()
        &&& self.endorsement_count() == other.endorsement_count()
    }

    /// How many endorsements a block holds, as configured.
    pub closed spec fn endorsement_count(self) -> nat {
        self.endorsement_count as nat
    }

    /// A handle on the two shared pools and the two worker channels, for
    /// blocks that hold `endorsement_count` endorsements.
    pub fn new(
        operation_pool: Arc<parking_lot::RwLock<OperationPool>>,
        endorsement_pool: Arc<parking_lot::RwLock<EndorsementPool>>,
        operations_input_sender: SyncSender<Command>,
        endorsements_input_sender: SyncSender<Command>,
        endorsement_count: u32,
    ) -> (r: PoolControllerImpl)
        ensures
            r.operations_cell() == operation_pool,
            r.endorsements_cell() == endorsement_pool,
            r.operations_sender() == operations_input_sender,
            r.endorsements_sender() == endorsements_input_sender,
            r.endorsement_count() == endorsement_count,
            r.operations_handed() == Seq::<Command>::empty(),
            r.endorsements_handed() == Seq::<Command>::empty(),
    {
        PoolControllerImpl {
            operation_pool,
            endorsement_pool,
            operations_input_sender: CommandSender::new(operations_input_sender),
            endorsements_input_sender: CommandSender::new(endorsements_input_sender),
            endorsement_count,
        }
    }

    /// Hands a batch of operations to the operations worker, and nothing to
    /// the endorsements worker. Fails with the operations channel error when
    /// that worker is gone.
    pub fn add_operations(&mut self, ops: Vec<OperationId>) -> (r: Result<(), PoolError>)
        ensures
            final(self).same_targets(*old(self)),
            final(self).operations_handed() == old(self).operations_handed().push(Command::AddOperations(ops)),
            final(self).endorsements_handed() == old(self).endorsements_handed(),
            exists|sent: bool| r == send_result(sent, PoolChannel::Operations, CommandKind::AddItems),
    {
        let sent = send_command(&mut self.operations_input_sender, Command::AddOperations(ops));
        send_outcome(sent, PoolChannel::Operations, CommandKind::AddItems)
    }

    /// Hands a batch of endorsements to the endorsements worker, and nothing
    /// to the operations worker. Fails with the endorsements channel error
    /// when that worker is gone.
    pub fn add_endorsements(&mut self, endorsements: Vec<Endorsement>) -> (r: Result<(), PoolError>)
        ensures
            final(self).same_targets(*old(self)),
            final(self).endorsements_handed() == old(self).endorsements_handed().push(Command::AddEndorsements(endorsements)),
            final(self).operations_handed() == old(self).operations_handed(),
            exists|sent: bool| r == send_result(sent, PoolChannel::Endorsements, CommandKind::AddItems),
    {
        let sent = send_command(&mut self.endorsements_input_sender, Command::AddEndorsements(endorsements));
        send_outcome(sent, PoolChannel::Endorsements, CommandKind::AddItems)
    }

    /// Hands one notification with the new final periods to each worker. The
    /// endorsements send is attempted whatever became of the operations send;
    /// a failure names the first channel that failed.
    pub fn notify_final_cs_periods(&mut self, final_cs_periods: &[u64]) -> (r: Result<(), PoolError>)
        ensures
            final(self).same_targets(*old(self)),
            handed_one_more(old(self).operations_handed(), final(self).operations_handed()),
            handed_one_more(old(self).endorsements_handed(), final(self).endorsements_handed()),
            is_notification(final(self).operations_handed().last(), final_cs_periods@),
            is_notification(final(self).endorsements_handed().last(), final_cs_periods@),
            exists|ops_sent: bool, endorsements_sent: bool| r == broadcast_result(ops_sent, endorsements_sent),
    {
        let ghost ops_before = self.operations_input_sender.handed();
        let ghost endorsements_before = self.endorsements_input_sender.handed();
        let ops_sent = send_command(&mut self.operations_input_sender, final_periods_command(final_cs_periods));
        let endorsements_sent = send_command(&mut self.endorsements_input_sender, final_periods_command(final_cs_periods));
        assert(self.operations_input_sender.handed().drop_last() =~= ops_before);
        assert(self.endorsements_input_sender.handed().drop_last() =~= endorsements_before);
        broadcast_outcome(ops_sent, endorsements_sent)
    }

    /// The operations chosen for a block at `slot`, read from one state of
    /// the operation pool.
    pub fn get_block_operations(&self, slot: &Slot) -> (r: Vec<OperationId>)
        ensures
            exists|p: OperationPool| is_block_choice((#[trigger] p.view()).items, p.block_size(), op_ids(r@)),
    {
        let pool = read_snapshot(&self.operation_pool);
        pool.get_block_operations(slot)
    }

    /// For each of the configured endorsement positions of a block at
    /// `target_slot` building on `target_block`, a fitting pending endorsement
    /// or `None`, together with the chosen endorsements themselves in
    /// position order; all read from one state of the endorsement pool.
    pub fn get_block_endorsements(&self, target_block: &BlockId, target_slot: &Slot) -> (r: (Vec<Option<EndorsementId>>, Vec<Endorsement>))
        ensures
            r.0@.len() == self.endorsement_count(),
            exists|p: EndorsementPool|
                r.0@ == block_fill((#[trigger] p.view()).entries, self.endorsement_count(), *target_block, *target_slot)
                && r.1@ == chosen_entries(p.view().entries, self.endorsement_count(), *target_block, *target_slot),
    {
        let pool = read_snapshot(&self.endorsement_pool);
        pool.select_endorsements(target_block, target_slot, self.endorsement_count)
    }

    /// A second handle on the same pools and channels; nothing is copied but
    /// the references.
    pub fn clone_box(&self) -> (r: PoolControllerImpl)
        ensures
            r.operations_cell() == self.operations_cell(),
            r.endorsements_cell() == self.endorsements_cell(),
            r.operations_sender() == self.operations_sender(),
            r.endorsements_sender() == self.endorsements_sender(),
            r.endorsement_count() == self.endorsement_count(),
            r.operations_handed() == Seq::<Command>::empty(),
            r.endorsements_handed() == Seq::<Command>::empty(),
    {
        PoolControllerImpl {
            operation_pool: share(&self.operation_pool),
            endorsement_pool: share(&self.endorsement_pool),
            operations_input_sender: self.operations_input_sender.duplicate(),
            endorsements_input_sender: self.endorsements_input_sender.duplicate(),
            endorsement_count: self.endorsement_count,
        }
    }

    /// Number of pending endorsements in one state of the endorsement pool.
    pub fn get_endorsement_count(&self) -> (r: usize)
        ensures
            exists|p: EndorsementPool| r == (#[trigger] p.view()).entries.len(),
    {
        let pool = read_snapshot(&self.endorsement_pool);
        pool.len()
    }

    /// Number of pending operations in one state of the operation pool.
    pub fn get_operation_count(&self) -> (r: usize)
        ensures
            exists|p: OperationPool| r == (#[trigger] p.view()).items.len(),
    {
        let pool = read_snapshot(&self.operation_pool);
        pool.len()
    }

    /// One answer per id, all taken from one state of the endorsement pool.
    pub fn contains_endorsements(&self, endorsements: &[EndorsementId]) -> (r: Vec<bool>)
        ensures
            r@.len() == endorsements@.len(),
            exists|p: EndorsementPool|
                r@ == membership(endorsement_ids((#[trigger] p.view()).entries).to_set(), endorsements@.map_values(|e: EndorsementId| e.0)),
    {
        let pool = read_snapshot(&self.endorsement_pool);
        let r = pool.contains_endorsements(endorsements);
        proof {
            let ids = endorsements@.map_values(|e: EndorsementId| e.0);
            let set = endorsement_ids(pool.view().entries).to_set();
            assert(r@ =~= membership(set, ids));
        }
        r
    }

    /// One answer per id, all taken from one state of the operation pool.
    pub fn contains_operations(&self, operations: &[OperationId]) -> (r: Vec<bool>)
        ensures
            r@.len() == operations@.len(),
            exists|p: OperationPool| r@ == membership((#[trigger] p.view()).items, op_ids(operations@)),
    {
        let pool = read_snapshot(&self.operation_pool);
        let r = pool.contains_operations(operations);
        proof {
            assert(r@ =~= membership(pool.view().items, op_ids(operations@)));
        }
        r
    }
}

/// Asks both workers to stop: hands one `Stop` to each channel, the second
/// whatever became of the first. A worker that is already gone needs no
/// stopping, so a failed send is not an error.
pub fn request_stop(operations_input_sender: &mut CommandSender, endorsements_input_sender: &mut CommandSender)
    ensures
        final(operations_input_sender).handed() == old(operations_input_sender).handed().push(Command::Stop),
        final(endorsements_input_sender).handed() == old(endorsements_input_sender).handed().push(Command::Stop),
        final(operations_input_sender).channel() == old(operations_input_sender).channel(),
        final(endorsements_input_sender).channel() == old(endorsements_input_sender).channel(),
{
    let _ = send_command(operations_input_sender, Command::Stop);
    let _ = send_command(endorsements_input_sender, Command::Stop);
}

} // verus!
