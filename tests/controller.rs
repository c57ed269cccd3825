use massa_pool_worker::command::{BlockId, Command, Endorsement, EndorsementId, OperationId, Slot, WorkerState};
use massa_pool_worker::controller::{
    broadcast_outcome, request_stop, send_outcome, CommandKind, PoolChannel, PoolControllerImpl, PoolError,
};
use massa_pool_worker::endorsement_pool::EndorsementPool;
use massa_pool_worker::operation_pool::OperationPool;
use massa_pool_worker::sync::CommandSender;
use parking_lot::RwLock;
use std::sync::mpsc::{sync_channel, Receiver};
use std::sync::Arc;

struct Harness {
    controller: PoolControllerImpl,
    operation_pool: Arc<RwLock<OperationPool>>,
    endorsement_pool: Arc<RwLock<EndorsementPool>>,
    operations_rx: Receiver<Command>,
    endorsements_rx: Receiver<Command>,
}

fn harness(max_block_operations: usize, endorsement_count: u32) -> Harness {
    let operation_pool = Arc::new(RwLock::new(OperationPool::new(max_block_operations)));
    let endorsement_pool = Arc::new(RwLock::new(EndorsementPool::new(endorsement_count)));
    let (ops_tx, operations_rx) = sync_channel(1000);
    let (endo_tx, endorsements_rx) = sync_channel(1000);
    let controller = PoolControllerImpl::new(operation_pool.clone(), endorsement_pool.clone(), ops_tx, endo_tx, endorsement_count);
    Harness { controller, operation_pool, endorsement_pool, operations_rx, endorsements_rx }
}

/// Plays the workers' part: applies everything queued so far.
fn flush(h: &Harness) -> (WorkerState, WorkerState) {
    let ops: Vec<Command> = h.operations_rx.try_iter().collect();
    let endos: Vec<Command> = h.endorsements_rx.try_iter().collect();
    let a = h.operation_pool.write().apply_commands(ops);
    let b = h.endorsement_pool.write().apply_commands(endos);
    (a, b)
}

fn ops(ids: &[u64]) -> Vec<OperationId> {
    ids.iter().map(|i| OperationId(*i)).collect()
}

fn endorsement(id: u64, period: u64, index: u32, block: u64) -> Endorsement {
    Endorsement { id: EndorsementId(id), slot: Slot { period, thread: 0 }, index, endorsed_block: BlockId(block) }
}

#[test]
fn adds_are_applied_in_send_order() {
    let mut h = harness(10, 4);
    h.controller.notify_final_cs_periods(&[1, 1]).unwrap();
    h.controller.add_operations(ops(&[3, 1])).unwrap();
    h.controller.notify_final_cs_periods(&[2, 2]).unwrap();
    h.controller.add_endorsements(vec![endorsement(7, 5, 0, 9), endorsement(6, 5, 0, 9)]).unwrap();
    flush(&h);
    // the last notification sent is the one that holds
    assert_eq!(h.operation_pool.read().final_cs_periods(), vec![2, 2]);
    assert_eq!(h.endorsement_pool.read().final_cs_periods(), vec![2, 2]);
    assert_eq!(h.controller.get_operation_count(), 2);
    // endorsements keep their order of arrival: the first that fits is chosen
    let (chosen, items) = h.controller.get_block_endorsements(&BlockId(9), &Slot { period: 5, thread: 0 });
    assert_eq!(chosen, vec![Some(EndorsementId(7)), None, None, None]);
    assert_eq!(items, vec![endorsement(7, 5, 0, 9)]);
}

#[test]
fn contains_operations_answers_each_id() {
    let mut h = harness(10, 4);
    h.controller.add_operations(ops(&[1, 2])).unwrap();
    flush(&h);
    let r = h.controller.contains_operations(&ops(&[2, 5, 1]));
    assert_eq!(r.len(), 3);
    assert_eq!(r, vec![true, false, true]);
    assert_eq!(h.controller.contains_operations(&[]), Vec::<bool>::new());
}

#[test]
fn contains_endorsements_answers_each_id() {
    let mut h = harness(10, 4);
    h.controller.add_endorsements(vec![endorsement(4, 1, 0, 1)]).unwrap();
    flush(&h);
    let r = h.controller.contains_endorsements(&[EndorsementId(3), EndorsementId(4)]);
    assert_eq!(r, vec![false, true]);
}

#[test]
fn interleaved_adds_count_each_operation_once() {
    let mut h = harness(10, 4);
    let mut handles: Vec<PoolControllerImpl> = (0..8).map(|_| h.controller.clone_box()).collect();
    for (k, c) in handles.iter_mut().enumerate() {
        let k = k as u64;
        c.add_operations(ops(&[k, k + 1, 100])).unwrap();
    }
    h.controller.add_operations(ops(&[0, 1, 2])).unwrap();
    flush(&h);
    // ids 0..=8 and 100
    assert_eq!(h.controller.get_operation_count(), 10);
    assert_eq!(h.operation_pool.read().len(), 10);
}

#[test]
fn stop_keeps_commands_sent_before_it() {
    let h = harness(10, 4);
    let (ops_tx, ops_rx) = sync_channel(10);
    let (endo_tx, endo_rx) = sync_channel(10);
    let mut c = PoolControllerImpl::new(h.operation_pool.clone(), h.endorsement_pool.clone(), ops_tx.clone(), endo_tx.clone(), 4);
    c.add_operations(ops(&[1])).unwrap();
    c.add_endorsements(vec![endorsement(2, 1, 0, 1)]).unwrap();
    let mut ops_stop = CommandSender::new(ops_tx.clone());
    let mut endo_stop = CommandSender::new(endo_tx.clone());
    request_stop(&mut ops_stop, &mut endo_stop);
    c.add_operations(ops(&[5])).unwrap();
    let op_cmds: Vec<Command> = ops_rx.try_iter().collect();
    let endo_cmds: Vec<Command> = endo_rx.try_iter().collect();
    assert_eq!(h.operation_pool.write().apply_commands(op_cmds), WorkerState::Stopped);
    assert_eq!(h.endorsement_pool.write().apply_commands(endo_cmds), WorkerState::Stopped);
    assert_eq!(h.controller.contains_operations(&ops(&[1, 5])), vec![true, false]);
    assert_eq!(h.controller.get_endorsement_count(), 1);
    drop(ops_rx);
    drop(endo_rx);
    assert_eq!(
        c.add_operations(ops(&[6])),
        Err(PoolError::ChannelError(PoolChannel::Operations, CommandKind::AddItems))
    );
}

#[test]
fn send_to_stopped_worker_is_channel_error() {
    let h = harness(10, 4);
    let (tx, rx) = sync_channel::<Command>(1);
    let (tx2, rx2) = sync_channel::<Command>(1);
    drop(rx);
    drop(rx2);
    let mut c = PoolControllerImpl::new(h.operation_pool.clone(), h.endorsement_pool.clone(), tx, tx2, 4);
    assert_eq!(
        c.add_operations(ops(&[1])),
        Err(PoolError::ChannelError(PoolChannel::Operations, CommandKind::AddItems))
    );
    assert_eq!(
        c.add_endorsements(vec![endorsement(1, 1, 0, 1)]),
        Err(PoolError::ChannelError(PoolChannel::Endorsements, CommandKind::AddItems))
    );
    assert_eq!(
        c.notify_final_cs_periods(&[3]),
        Err(PoolError::ChannelError(PoolChannel::Operations, CommandKind::FinalPeriods))
    );
    // reads still work once the workers are gone
    assert_eq!(c.get_operation_count(), 0);
}

#[test]
fn notify_reports_endorsements_channel_when_only_it_failed() {
    let h = harness(10, 4);
    let (ops_tx, ops_rx) = sync_channel::<Command>(4);
    let (endo_tx, endo_rx) = sync_channel::<Command>(4);
    drop(endo_rx);
    let mut c = PoolControllerImpl::new(h.operation_pool.clone(), h.endorsement_pool.clone(), ops_tx, endo_tx, 4);
    assert_eq!(
        c.notify_final_cs_periods(&[4]),
        Err(PoolError::ChannelError(PoolChannel::Endorsements, CommandKind::FinalPeriods))
    );
    assert_eq!(ops_rx.try_iter().count(), 1);
}

#[test]
fn notify_attempts_endorsements_after_operations_failed() {
    let h = harness(10, 4);
    let (ops_tx, ops_rx) = sync_channel::<Command>(4);
    let (endo_tx, endo_rx) = sync_channel::<Command>(4);
    drop(ops_rx);
    let mut c = PoolControllerImpl::new(h.operation_pool.clone(), h.endorsement_pool.clone(), ops_tx, endo_tx, 4);
    assert_eq!(
        c.notify_final_cs_periods(&[4]),
        Err(PoolError::ChannelError(PoolChannel::Operations, CommandKind::FinalPeriods))
    );
    let got: Vec<Command> = endo_rx.try_iter().collect();
    assert_eq!(got.len(), 1);
    assert!(matches!(&got[0], Command::NotifyFinalCsPeriods(p) if p == &vec![4]));
}

#[test]
fn final_periods_reach_both_pools_once() {
    let mut h = harness(10, 4);
    h.controller.notify_final_cs_periods(&[5, 5, 5, 5]).unwrap();
    let op_cmds: Vec<Command> = h.operations_rx.try_iter().collect();
    let endo_cmds: Vec<Command> = h.endorsements_rx.try_iter().collect();
    assert_eq!(op_cmds.len(), 1);
    assert_eq!(endo_cmds.len(), 1);
    assert!(matches!(&op_cmds[0], Command::NotifyFinalCsPeriods(p) if p == &vec![5, 5, 5, 5]));
    assert!(matches!(&endo_cmds[0], Command::NotifyFinalCsPeriods(p) if p == &vec![5, 5, 5, 5]));
    h.operation_pool.write().apply_commands(op_cmds);
    h.endorsement_pool.write().apply_commands(endo_cmds);
    assert_eq!(h.operation_pool.read().final_cs_periods(), vec![5, 5, 5, 5]);
    assert_eq!(h.endorsement_pool.read().final_cs_periods(), vec![5, 5, 5, 5]);
}

#[test]
fn block_operations_are_the_ten_smallest_sorted() {
    let mut h = harness(10, 4);
    let batch: Vec<OperationId> = (0..100u64).map(|i| OperationId((i * 37) % 100 + 1000)).collect();
    h.controller.add_operations(batch).unwrap();
    flush(&h);
    let chosen = h.controller.get_block_operations(&Slot { period: 42, thread: 0 });
    assert_eq!(chosen.len(), 10);
    assert!(chosen.windows(2).all(|w| w[0].0 < w[1].0));
    assert_eq!(chosen, ops(&[1000, 1001, 1002, 1003, 1004, 1005, 1006, 1007, 1008, 1009]));
}

#[test]
fn block_operations_take_all_of_a_small_pool() {
    let mut h = harness(10, 4);
    h.controller.add_operations(ops(&[9, 3])).unwrap();
    flush(&h);
    assert_eq!(h.controller.get_block_operations(&Slot { period: 1, thread: 1 }), ops(&[3, 9]));
    let empty = harness(10, 4);
    assert_eq!(empty.controller.get_block_operations(&Slot { period: 1, thread: 1 }), Vec::new());
}

#[test]
fn block_endorsements_are_aligned_by_index() {
    let mut h = harness(10, 3);
    h.controller
        .add_endorsements(vec![
            endorsement(1, 7, 2, 50),
            endorsement(2, 7, 0, 50),
            endorsement(3, 7, 0, 51),
            endorsement(4, 8, 1, 50),
            endorsement(2, 7, 1, 50),
        ])
        .unwrap();
    flush(&h);
    assert_eq!(h.controller.get_endorsement_count(), 4);
    let (r, items) = h.controller.get_block_endorsements(&BlockId(50), &Slot { period: 7, thread: 0 });
    assert_eq!(r, vec![Some(EndorsementId(2)), None, Some(EndorsementId(1))]);
    assert_eq!(items, vec![endorsement(2, 7, 0, 50), endorsement(1, 7, 2, 50)]);
}

#[test]
fn block_endorsements_have_one_entry_per_configured_position() {
    let h = harness(10, 5);
    let (r, items) = h.controller.get_block_endorsements(&BlockId(1), &Slot { period: 1, thread: 0 });
    assert_eq!(r, vec![None, None, None, None, None]);
    assert!(items.is_empty());
    let other = h.controller.clone_box();
    assert_eq!(other.get_block_endorsements(&BlockId(1), &Slot { period: 1, thread: 0 }).0.len(), 5);
}

#[test]
fn clone_box_shares_the_pools() {
    let mut h = harness(10, 4);
    let mut other = h.controller.clone_box();
    h.controller.add_operations(ops(&[8])).unwrap();
    other.add_operations(ops(&[9])).unwrap();
    flush(&h);
    assert_eq!(other.get_operation_count(), 2);
    assert_eq!(h.controller.get_operation_count(), 2);
    assert_eq!(other.contains_operations(&ops(&[8])), vec![true]);
}

#[test]
fn duplicate_operations_in_one_batch_count_once() {
    let mut pool = OperationPool::new(5);
    pool.add_operations(&ops(&[4, 4, 2, 4]));
    assert_eq!(pool.len(), 2);
    pool.add_operations(&ops(&[4, 2]));
    assert_eq!(pool.len(), 2);
    assert_eq!(pool.contains_operations(&ops(&[2, 3, 4])), vec![true, false, true]);
}

#[test]
fn duplicate_endorsements_keep_the_first() {
    let mut pool = EndorsementPool::new(1);
    pool.add_endorsements(&vec![endorsement(1, 1, 0, 1), endorsement(1, 2, 0, 2)]);
    assert_eq!(pool.len(), 1);
    assert_eq!(
        pool.get_block_endorsements(&BlockId(1), &Slot { period: 1, thread: 0 }),
        (vec![Some(EndorsementId(1))], vec![endorsement(1, 1, 0, 1)])
    );
    assert_eq!(pool.get_block_endorsements(&BlockId(2), &Slot { period: 2, thread: 0 }), (vec![None], vec![]));
    let (ids, items) = pool.select_endorsements(&BlockId(1), &Slot { period: 1, thread: 0 }, 3);
    assert_eq!(ids, vec![Some(EndorsementId(1)), None, None]);
    assert_eq!(items.len(), 1);
}

#[test]
fn process_reports_stop() {
    let mut pool = OperationPool::new(5);
    assert_eq!(pool.process(Command::AddOperations(ops(&[1]))), WorkerState::Running);
    assert_eq!(pool.process(Command::Stop), WorkerState::Stopped);
    let mut endo = EndorsementPool::new(1);
    assert_eq!(endo.process(Command::NotifyFinalCsPeriods(vec![1])), WorkerState::Running);
    assert_eq!(endo.process(Command::Stop), WorkerState::Stopped);
}

#[test]
fn apply_commands_ignores_what_follows_stop() {
    let mut pool = OperationPool::new(5);
    let state = pool.apply_commands(vec![
        Command::AddOperations(ops(&[1])),
        Command::Stop,
        Command::AddOperations(ops(&[2])),
    ]);
    assert_eq!(state, WorkerState::Stopped);
    assert_eq!(pool.contains_operations(&ops(&[1, 2])), vec![true, false]);
    assert_eq!(pool.apply_commands(vec![Command::AddOperations(ops(&[3]))]), WorkerState::Running);
    assert_eq!(pool.len(), 2);
}

#[test]
fn outcomes_map_to_channel_errors() {
    assert_eq!(send_outcome(true, PoolChannel::Endorsements, CommandKind::AddItems), Ok(()));
    assert_eq!(
        send_outcome(false, PoolChannel::Endorsements, CommandKind::AddItems),
        Err(PoolError::ChannelError(PoolChannel::Endorsements, CommandKind::AddItems))
    );
    assert_eq!(broadcast_outcome(true, true), Ok(()));
    assert_eq!(
        broadcast_outcome(false, false),
        Err(PoolError::ChannelError(PoolChannel::Operations, CommandKind::FinalPeriods))
    );
    assert_eq!(
        broadcast_outcome(true, false),
        Err(PoolError::ChannelError(PoolChannel::Endorsements, CommandKind::FinalPeriods))
    );
}

#[test]
fn error_messages_name_the_channel() {
    let e = PoolError::ChannelError(PoolChannel::Operations, CommandKind::AddItems);
    assert_eq!(e.message(), "could not give operations to add through pool channel");
    let e = PoolError::ChannelError(PoolChannel::Endorsements, CommandKind::FinalPeriods);
    assert_eq!(e.message(), "could not give consensus periods through endorsements pool channel");
}

#[test]
fn stop_reaches_second_channel_when_first_is_gone() {
    let (ops_tx, ops_rx) = sync_channel::<Command>(4);
    let (endo_tx, endo_rx) = sync_channel::<Command>(4);
    drop(ops_rx);
    let mut ops = CommandSender::new(ops_tx);
    let mut endo = CommandSender::new(endo_tx);
    request_stop(&mut ops, &mut endo);
    let got: Vec<Command> = endo_rx.try_iter().collect();
    assert_eq!(got.len(), 1);
    assert!(matches!(got[0], Command::Stop));
}

#[test]
fn add_operations_uses_only_the_operations_channel() {
    let mut h = harness(10, 4);
    h.controller.add_operations(ops(&[1, 2])).unwrap();
    let op_cmds: Vec<Command> = h.operations_rx.try_iter().collect();
    assert_eq!(op_cmds.len(), 1);
    assert!(matches!(&op_cmds[0], Command::AddOperations(b) if b == &ops(&[1, 2])));
    assert_eq!(h.endorsements_rx.try_iter().count(), 0);
    h.controller.add_endorsements(vec![endorsement(3, 1, 0, 1)]).unwrap();
    assert_eq!(h.operations_rx.try_iter().count(), 0);
    assert_eq!(h.endorsements_rx.try_iter().count(), 1);
}
