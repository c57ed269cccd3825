use vstd::prelude::*;

verus! {

/// Identifier of a pending operation (a transaction).
#[derive(Clone, Copy, Debug, PartialEq, Eq, Structural)]
pub struct OperationId(pub u64);

/// Identifier of a pending endorsement (a vote on a recent block).
#[derive(Clone, Copy, Debug, PartialEq, Eq, Structural)]
pub struct EndorsementId(pub u64);

/// Identifier of a block.
#[derive(Clone, Copy, Debug, PartialEq, Eq, Structural)]
pub struct BlockId(pub u64);

/// A position in time: a period and one of the parallel threads of that period.
#[derive(Clone, Copy, Debug, PartialEq, Eq, Structural)]
pub struct Slot {
    pub period: u64,
    pub thread: u8,
}

/// An endorsement as the pool sees it: who it is, where it stands and what it endorses.
#[derive(Clone, Copy, Debug, PartialEq, Eq, Structural)]
pub struct Endorsement {
    pub id: EndorsementId,
    pub slot: Slot,
    pub index: u32,
    pub endorsed_block: BlockId,
}

/// A message from a producer to a pool worker. Each command travels on one
/// channel and is observed by exactly one worker.
#[derive(Debug)]
pub enum Command {
    AddOperations(Vec<OperationId>),
    AddEndorsements(Vec<Endorsement>),
    NotifyFinalCsPeriods(Vec<u64>),
    Stop,
}

/// Whether a worker goes on reading its channel.
#[derive(Clone, Copy, Debug, PartialEq, Eq, Structural)]
pub enum WorkerState {
    Running,
    Stopped,
}

/// What a worker makes of a command: `Stop` ends it, every other command is
/// applied and leaves it running.
pub open spec fn state_after(cmd: Command) -> WorkerState {
    if cmd is Stop {
        WorkerState::Stopped
    } else {
        WorkerState::Running
    }
}

/// No `Stop` in the sequence.
pub open spec fn stop_free(cmds: Seq<Command>) -> bool {
    forall|i: int| 0 <= i < cmds.len() ==> !(#[trigger] cmds[i] is Stop)
}

} // verus!
