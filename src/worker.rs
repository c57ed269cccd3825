use vstd::prelude::*;
use crate::command::{Command, OperationId, WorkerState, state_after, stop_free};
use crate::endorsement_pool::{EndorsementPool, EndorsementPoolView, endorsement_step};
use crate::operation_pool::{OperationPool, OperationPoolView, op_ids, op_step};

verus! {

/// The state after a worker has read `cmds`: `step` applied to each command
/// in order, up to the first `Stop`.
pub open spec fn run_until_stop<V>(v: V, cmds: Seq<Command>, step: spec_fn(V, Command) -> V) -> V
    decreases cmds.len(),
{
    if cmds.len() == 0 || cmds[0] is Stop {
        v
    } else {
        run_until_stop(step(v, cmds[0]), cmds.drop_first(), step)
    }
}

/// The operation pool after a worker has read `cmds`.
pub open spec fn op_apply_all(v: OperationPoolView, cmds: Seq<Command>) -> OperationPoolView {
    run_until_stop(v, cmds, |w: OperationPoolView, c: Command| OperationPool::transition(w, c))
}

/// The endorsement pool after a worker has read `cmds`.
pub open spec fn endorsement_apply_all(v: EndorsementPoolView, cmds: Seq<Command>) -> EndorsementPoolView {
    run_until_stop(v, cmds, |w: EndorsementPoolView, c: Command| EndorsementPool::transition(w, c))
}

/// A pool that a worker drives, one command at a time.
pub trait CommandTarget: Sized {
    type View;

    /// The pool's abstract state.
    spec fn state(&self) -> Self::View;

    /// What the pool is configured with; no command changes it.
    spec fn setting(&self) -> nat;

    /// The effect of one command on the abstract state.
    spec fn transition(v: Self::View, cmd: Command) -> Self::View;

    /// Applies one command and says whether the worker goes on.
    fn apply_command(&mut self, cmd: Command) -> (r: WorkerState)
        ensures
            final(self).state() == Self::transition(old(self).state(), cmd),
            cmd is Stop ==> final(self).state() == old(self).state(),
            final(self).setting() == old(self).setting(),
            r == state_after(cmd);
}

impl CommandTarget for OperationPool {
    type View = OperationPoolView;

    open spec fn state(&self) -> OperationPoolView {
        self.view()
    }

    open spec fn setting(&self) -> nat {
        self.block_size()
    }

    open spec fn transition(v: OperationPoolView, cmd: Command) -> OperationPoolView {
        op_step(v, cmd)
    }

    fn apply_command(&mut self, cmd: Command) -> (r: WorkerState) {
        self.process(cmd)
    }
}

impl CommandTarget for EndorsementPool {
    type View = EndorsementPoolView;

    open spec fn state(&self) -> EndorsementPoolView {
        self.view()
    }

    open spec fn setting(&self) -> nat {
        self.slots_per_block()
    }

    open spec fn transition(v: EndorsementPoolView, cmd: Command) -> EndorsementPoolView {
        endorsement_step(v, cmd)
    }

    fn apply_command(&mut self, cmd: Command) -> (r: WorkerState) {
        self.process(cmd)
    }
}

/// Applies the commands to `pool` in the order given, up to the first
/// `Stop`, and says whether a `Stop` was met.
pub fn apply_in_order<P: CommandTarget>(pool: &mut P, cmds: Vec<Command>) -> (r: WorkerState)
    ensures
        final(pool).state() == run_until_stop(old(pool).state(), cmds@, |w: P::View, c: Command| P::transition(w, c)),
        final(pool).setting() == old(pool).setting(),
        r == (if has_stop(cmds@) { WorkerState::Stopped } else { WorkerState::Running }),
{
    let n: usize = cmds.len();
    let ghost all = cmds@;
    let ghost step = |w: P::View, c: Command| P::transition(w, c);
    let mut rest = cmds;
    let mut k: usize = 0;
    while rest.len() > 0
        invariant
            step == (|w: P::View, c: Command| P::transition(w, c)),
            run_until_stop(old(pool).state(), all, step) == run_until_stop(pool.state(), rest@, step),
            pool.setting() == old(pool).setting(),
            k + rest@.len() == all.len(),
            all.len() == n,
            all == cmds@,
            rest@ == all.skip(k as int),
            stop_free(all.take(k as int)),
        decreases rest@.len(),
    {
        let ghost before = rest@;
        let cmd = rest.remove(0);
        assert(before[0] == all[k as int]);
        let state = pool.apply_command(cmd);
        if state == WorkerState::Stopped {
            assert(all[k as int] is Stop);
            return WorkerState::Stopped;
        }
        assert(rest@ =~= before.drop_first());
        proof {
            lemma_prefix_grows(all, k as int);
        }
        k = k + 1;
        assert(rest@ =~= all.skip(k as int));
    }
    proof {
        lemma_whole_prefix(all);
    }
    WorkerState::Running
}

/// Whether the sequence holds a `Stop`.
pub open spec fn has_stop(cmds: Seq<Command>) -> bool {
    exists|i: int| 0 <= i < cmds.len() && #[trigger] cmds[i] is Stop
}

/// The ids carried by the operation batches of `cmds`.
pub open spec fn added_ops(cmds: Seq<Command>) -> Set<u64>
    decreases cmds.len(),
{
    if cmds.len() == 0 {
        Set::empty()
    } else {
        let rest = added_ops(cmds.drop_first());
        match cmds[0] {
            Command::AddOperations(b) => op_ids(b@).to_set() + rest,
            _ => rest,
        }
    }
}

/// A `Stop`-free prefix grows by one command that is not `Stop`.
proof fn lemma_prefix_grows(all: Seq<Command>, k: int)
    requires
        0 <= k < all.len(),
        stop_free(all.take(k)),
        !(all[k] is Stop),
    ensures
        stop_free(all.take(k + 1)),
{
    assert(all.take(k + 1) =~= all.take(k).push(all[k]));
    assert forall|i: int| 0 <= i < k + 1 implies !(#[trigger] all.take(k + 1)[i] is Stop) by {
        if i < k {
            assert(all.take(k + 1)[i] == all.take(k)[i]);
        }
    }
}

/// A sequence whose whole length is a `Stop`-free prefix holds no `Stop`.
proof fn lemma_whole_prefix(all: Seq<Command>)
    requires
        stop_free(all.take(all.len() as int)),
    ensures
        !has_stop(all),
{
    assert(all.take(all.len() as int) =~= all);
}

impl OperationPool {
    /// Applies the commands in the order given, up to the first `Stop`, and
    /// says whether a `Stop` was met.
    pub fn apply_commands(&mut self, cmds: Vec<Command>) -> (r: WorkerState)
        ensures
            final(self).view() == op_apply_all(old(self).view(), cmds@),
            final(self).block_size() == old(self).block_size(),
            r == (if has_stop(cmds@) { WorkerState::Stopped } else { WorkerState::Running }),
    {
        apply_in_order(self, cmds)
    }
}

impl EndorsementPool {
    /// Applies the commands in the order given, up to the first `Stop`, and
    /// says whether a `Stop` was met.
    pub fn apply_commands(&mut self, cmds: Vec<Command>) -> (r: WorkerState)
        ensures
            final(self).view() == endorsement_apply_all(old(self).view(), cmds@),
            final(self).slots_per_block() == old(self).slots_per_block(),
            r == (if has_stop(cmds@) { WorkerState::Stopped } else { WorkerState::Running }),
    {
        apply_in_order(self, cmds)
    }
}

/// Dropping the first command of a `Stop`-free sequence leaves it `Stop`-free.
proof fn lemma_stop_free_rest(a: Seq<Command>)
    requires
        a.len() > 0,
        stop_free(a),
    ensures
        stop_free(a.drop_first()),
        !(a[0] is Stop),
{
    assert forall|i: int| 0 <= i < a.drop_first().len() implies !(#[trigger] a.drop_first()[i] is Stop) by {
        assert(a.drop_first()[i] == a[i + 1]);
    }
}

/// Running a worker over `a` then `b` is running it over `a` and carrying on with `b`.
proof fn lemma_run_concat<V>(v: V, a: Seq<Command>, b: Seq<Command>, step: spec_fn(V, Command) -> V)
    requires
        stop_free(a),
    ensures
        run_until_stop(v, a + b, step) == run_until_stop(run_until_stop(v, a, step), b, step),
    decreases a.len(),
{
    if a.len() == 0 {
        assert(a + b =~= b);
    } else {
        lemma_stop_free_rest(a);
        assert((a + b)[0] == a[0]);
        assert((a + b).drop_first() =~= a.drop_first() + b);
        lemma_run_concat(step(v, a[0]), a.drop_first(), b, step);
    }
}

/// The items of an operation pool after a `Stop`-free run: its own and those of every batch.
proof fn lemma_op_items(v: OperationPoolView, a: Seq<Command>)
    requires
        stop_free(a),
    ensures
        op_apply_all(v, a).items == v.items + added_ops(a),
    decreases a.len(),
{
    if a.len() == 0 {
        assert(v.items + Set::<u64>::empty() =~= v.items);
    } else {
        lemma_stop_free_rest(a);
        lemma_op_items(op_step(v, a[0]), a.drop_first());
        let rest = added_ops(a.drop_first());
        match a[0] {
            Command::AddOperations(batch) => {
                assert(v.items + op_ids(batch@).to_set() + rest =~= v.items + (op_ids(batch@).to_set() + rest));
            },
            _ => {},
        }
    }
}

/// Commands reach each pool in the order they were sent: a worker that has
/// read `a` and then `b` holds the state of applying `a`, in order, and then
/// `b`, in order, to the pool it started from.
pub proof fn lemma_applied_in_send_order(
    ov: OperationPoolView,
    ev: EndorsementPoolView,
    a: Seq<Command>,
    b: Seq<Command>,
)
    requires
        stop_free(a),
    ensures
        op_apply_all(ov, a + b) == op_apply_all(op_apply_all(ov, a), b),
        endorsement_apply_all(ev, a + b) == endorsement_apply_all(endorsement_apply_all(ev, a), b),
        a.len() > 0 ==> op_apply_all(ov, a) == op_apply_all(op_step(ov, a[0]), a.drop_first()),
        a.len() > 0 ==> endorsement_apply_all(ev, a) == endorsement_apply_all(endorsement_step(ev, a[0]), a.drop_first()),
{
    lemma_run_concat(ov, a, b, |w: OperationPoolView, c: Command| OperationPool::transition(w, c));
    lemma_run_concat(ev, a, b, |w: EndorsementPoolView, c: Command| EndorsementPool::transition(w, c));
    if a.len() > 0 {
        lemma_stop_free_rest(a);
    }
}

/// `Stop` ends a worker: everything sent before it is applied, every batch
/// of operations before it is in the pool, and nothing sent after it has any
/// effect.
pub proof fn lemma_stop_keeps_earlier_commands(
    ov: OperationPoolView,
    ev: EndorsementPoolView,
    a: Seq<Command>,
    b: Seq<Command>,
)
    requires
        stop_free(a),
    ensures
        op_apply_all(ov, a + seq![Command::Stop] + b) == op_apply_all(ov, a),
        endorsement_apply_all(ev, a + seq![Command::Stop] + b) == endorsement_apply_all(ev, a),
        op_apply_all(ov, a + seq![Command::Stop] + b).items == ov.items + added_ops(a),
{
    let tail = seq![Command::Stop] + b;
    assert(a + seq![Command::Stop] + b =~= a + tail);
    assert(tail[0] is Stop);
    lemma_run_concat(ov, a, tail, |w: OperationPoolView, c: Command| OperationPool::transition(w, c));
    lemma_run_concat(ev, a, tail, |w: EndorsementPoolView, c: Command| EndorsementPool::transition(w, c));
    lemma_op_items(ov, a);
}

/// An operation batch counts once: adding it again changes nothing, batches
/// from different callers give the same pool in either order, and the pool
/// holds exactly its old items and the batch's ids.
pub proof fn lemma_operation_batches_count_once(v: OperationPoolView, x: Vec<OperationId>, y: Vec<OperationId>)
    ensures
        op_step(op_step(v, Command::AddOperations(x)), Command::AddOperations(x)) == op_step(v, Command::AddOperations(x)),
        op_step(op_step(v, Command::AddOperations(x)), Command::AddOperations(y))
            == op_step(op_step(v, Command::AddOperations(y)), Command::AddOperations(x)),
        op_step(v, Command::AddOperations(x)).items == v.items + op_ids(x@).to_set(),
{
    let sx = op_ids(x@).to_set();
    let sy = op_ids(y@).to_set();
    assert(v.items + sx + sx =~= v.items + sx);
    assert(v.items + sx + sy =~= v.items + sy + sx);
}

/// A finality notification gives both pools the very same period list, and
/// applying it a second time changes nothing.
pub proof fn lemma_final_periods_reach_both(ov: OperationPoolView, ev: EndorsementPoolView, periods: Vec<u64>)
    ensures
        op_step(ov, Command::NotifyFinalCsPeriods(periods)).final_cs_periods == periods@,
        endorsement_step(ev, Command::NotifyFinalCsPeriods(periods)).final_cs_periods == periods@,
        op_step(ov, Command::NotifyFinalCsPeriods(periods)).items == ov.items,
        endorsement_step(ev, Command::NotifyFinalCsPeriods(periods)).entries == ev.entries,
        op_step(op_step(ov, Command::NotifyFinalCsPeriods(periods)), Command::NotifyFinalCsPeriods(periods))
            == op_step(ov, Command::NotifyFinalCsPeriods(periods)),
        endorsement_step(endorsement_step(ev, Command::NotifyFinalCsPeriods(periods)), Command::NotifyFinalCsPeriods(periods))
            == endorsement_step(ev, Command::NotifyFinalCsPeriods(periods)),
{
}

} // verus!
