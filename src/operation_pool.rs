use vstd::prelude::*;
use crate::command::{Command, OperationId, Slot, WorkerState, state_after};

verus! {

/// Strictly increasing: sorted, with no repeated id.
pub open spec fn strictly_increasing(s: Seq<u64>) -> bool {
    forall|i: int, j: int| 0 <= i < j < s.len() ==> s[i] < s[j]
}

/// `chosen` is what a block gets from `items`: the smallest ids, in
/// increasing order, as many as `size` allows.
pub open spec fn is_block_choice(items: Set<u64>, size: nat, chosen: Seq<u64>) -> bool {
    &&& strictly_increasing(chosen)
    &&& chosen.len() == if items.len() < size { items.len() } else { size }
    &&& forall|i: int| 0 <= i < chosen.len() ==> items.contains(#[trigger] chosen[i])
    &&& forall|x: u64, i: int|
        #![trigger items.contains(x), chosen[i]]
        items.contains(x) && !chosen.contains(x) && 0 <= i < chosen.len() ==> chosen[i] < x
}

/// The ids of an operation batch.
pub open spec fn op_ids(b: Seq<OperationId>) -> Seq<u64> {
    b.map_values(|o: OperationId| o.0)
}

/// The pool of pending operations: the admitted ids, kept in increasing order,
/// and the last final periods it was told of (one per thread).
#[derive(Debug)]
pub struct OperationPool {
    ids: Vec<u64>,
    final_cs_periods: Vec<u64>,
    max_block_operations: usize,
}

/// The abstract state of an operation pool: its set of ids and its final periods.
pub struct OperationPoolView {
    pub items: Set<u64>,
    pub final_cs_periods: Seq<u64>,
}

/// The effect of one command on an operation pool.
pub open spec fn op_step(v: OperationPoolView, cmd: Command) -> OperationPoolView {
    match cmd {
        Command::AddOperations(b) => OperationPoolView {
            items: v.items + op_ids(b@).to_set(),
            final_cs_periods: v.final_cs_periods,
        },
        Command::NotifyFinalCsPeriods(p) => OperationPoolView {
            items: v.items,
            final_cs_periods: p@,
        },
        _ => v,
    }
}

/// A strictly increasing sequence repeats no element.
proof fn lemma_increasing_unique(s: Seq<u64>)
    requires
        strictly_increasing(s),
    ensures
        s.no_duplicates(),
{
    assert forall|i: int, j: int| 0 <= i < s.len() && 0 <= j < s.len() && i != j
        implies s[i] != s[j] by {
        assert(s[i] < s[j] || s[j] < s[i]);
    }
}

impl Clone for OperationPool {
    /// A copy of the pool's contents.
    fn clone(&self) -> (r: Self) {
        let ids = self.ids.clone();
        proof {
            use_type_invariant(self);
            assert(ids@ =~= self.ids@);
        }
        OperationPool { ids, final_cs_periods: self.final_cs_periods.clone(), max_block_operations: self.max_block_operations }
    }
}

impl OperationPool {
    #[verifier::type_invariant]
    spec fn inv(self) -> bool {
        strictly_increasing(self.ids@)
    }

    pub closed spec fn block_size(self) -> nat {
        self.max_block_operations as nat
    }

    pub closed spec fn view(self) -> OperationPoolView {
        OperationPoolView { items: self.ids@.to_set(), final_cs_periods: self.final_cs_periods@ }
    }

    /// An empty pool that puts at most `max_block_operations` operations in a block.
    pub fn new(max_block_operations: usize) -> (r: OperationPool)
        ensures
            r.view().items == Set::<u64>::empty(),
            r.view().final_cs_periods == Seq::<u64>::empty(),
            r.block_size() == max_block_operations,
    {
        let r = OperationPool { ids: Vec::new(), final_cs_periods: Vec::new(), max_block_operations };
        assert(r.ids@.to_set() =~= Set::<u64>::empty());
        r
    }

    /// Number of pending operations.
    pub fn len(&self) -> (r: usize)
        ensures
            r == self.view().items.len(),
    {
        proof {
            use_type_invariant(self);
            lemma_increasing_unique(self.ids@);
            self.ids@.unique_seq_to_set();
        }
        self.ids.len()
    }

    /// Whether the operation is pending.
    pub fn contains(&self, id: &OperationId) -> (r: bool)
        ensures
            r == self.view().items.contains(id.0),
    {
        let mut i: usize = 0;
        while i < self.ids.len()
            invariant
                0 <= i <= self.ids@.len(),
                forall|k: int| 0 <= k < i ==> self.ids@[k] != id.0,
            decreases self.ids@.len() - i,
        {
            if self.ids[i] == id.0 {
                assert(self.ids@.to_set().contains(self.ids@[i as int]));
                return true;
            }
            i = i + 1;
        }
        proof {
            if self.ids@.to_set().contains(id.0) {
                let k = choose|k: int| 0 <= k < self.ids@.len() && self.ids@[k] == id.0;
            }
        }
        false
    }

    /// Admits one id, keeping the ids increasing; an id already present is left alone.
    fn insert(&mut self, id: u64)
        ensures
            final(self).view().items == old(self).view().items.insert(id),
            final(self).view().final_cs_periods == old(self).view().final_cs_periods,
            final(self).block_size() == old(self).block_size(),
    {
        proof {
            use_type_invariant(&*self);
        }
        let mut p: usize = 0;
        while p < self.ids.len() && self.ids[p] < id
            invariant
                p <= self.ids@.len(),
                forall|k: int| 0 <= k < p ==> self.ids@[k] < id,
            decreases self.ids@.len() - p,
        {
            p = p + 1;
        }
        if p < self.ids.len() && self.ids[p] == id {
            assert(self.ids@.to_set().insert(id) =~= self.ids@.to_set());
            return;
        }
        let ghost before = self.ids@;
        proof {
            before.insert_ensures(p as int, id);
        }
        let mut ids = self.ids.clone();
        assert(ids@ =~= before);
        ids.insert(p, id);
        self.ids = ids;
        proof {
            let after = self.ids@;
            assert(strictly_increasing(after)) by {
                assert forall|i: int, j: int| 0 <= i < j < after.len() implies after[i] < after[j] by {
                    if j < p {
                    } else if j == p {
                    } else if i < p {
                        assert(after[j] == before[j - 1]);
                        assert(before[p as int] > id);
                        assert(before[p as int] <= before[j - 1]) by {
                            if p < j - 1 {
                            }
                        }
                    } else if i == p {
                        assert(after[j] == before[j - 1]);
                        assert(before[p as int] > id);
                        assert(before[p as int] <= before[j - 1]) by {
                            if p < j - 1 {
                            }
                        }
                    } else {
                        assert(after[j] == before[j - 1]);
                        assert(after[i] == before[i - 1]);
                    }
                }
            }
            assert forall|x: u64| after.contains(x) <==> before.contains(x) || x == id by {
                if after.contains(x) {
                    let k = choose|k: int| 0 <= k < after.len() && after[k] == x;
                    if k < p {
                        assert(before[k] == x);
                    } else if k > p {
                        assert(before[k - 1] == x);
                    }
                }
                if before.contains(x) {
                    let k = choose|k: int| 0 <= k < before.len() && before[k] == x;
                    if k < p {
                        assert(after[k] == x);
                    } else {
                        assert(after[k + 1] == x);
                    }
                }
                if x == id {
                    assert(after[p as int] == x);
                }
            }
            assert(after.to_set() =~= before.to_set().insert(id));
        }
    }

    /// Admits a batch of operations; the pool's items become the union of its
    /// items and the batch's ids.
    pub fn add_operations(&mut self, batch: &Vec<OperationId>)
        ensures
            final(self).view().items == old(self).view().items + op_ids(batch@).to_set(),
            final(self).view().final_cs_periods == old(self).view().final_cs_periods,
            final(self).block_size() == old(self).block_size(),
    {
        let mut i: usize = 0;
        while i < batch.len()
            invariant
                0 <= i <= batch@.len(),
                self.view().items == old(self).view().items + op_ids(batch@.subrange(0, i as int)).to_set(),
                self.view().final_cs_periods == old(self).view().final_cs_periods,
                self.block_size() == old(self).block_size(),
            decreases batch@.len() - i,
        {
            self.insert(batch[i].0);
            proof {
                assert(op_ids(batch@.subrange(0, i + 1)) =~= op_ids(batch@.subrange(0, i as int)).push(batch@[i as int].0));
                op_ids(batch@.subrange(0, i as int)).lemma_push_to_set_commute(batch@[i as int].0);
                assert(op_ids(batch@.subrange(0, i + 1)).to_set() =~= op_ids(batch@.subrange(0, i as int)).to_set().insert(batch@[i as int].0));
            }
            i = i + 1;
        }
        assert(batch@.subrange(0, batch@.len() as int) =~= batch@);
    }

    /// The last final periods the pool was told of.
    pub fn final_cs_periods(&self) -> (r: Vec<u64>)
        ensures
            r@ == self.view().final_cs_periods,
    {
        self.final_cs_periods.clone()
    }

    /// Records the final periods (one per thread) that consensus reported.
    pub fn notify_final_cs_periods(&mut self, periods: &Vec<u64>)
        ensures
            final(self).view().items == old(self).view().items,
            final(self).view().final_cs_periods == periods@,
            final(self).block_size() == old(self).block_size(),
    {
        proof {
            use_type_invariant(&*self);
        }
        self.final_cs_periods = periods.clone();
    }

    /// The operations chosen for a block at `slot`: the smallest ids, in
    /// increasing order, at most the pool's block size of them.
    pub fn get_block_operations(&self, slot: &Slot) -> (r: Vec<OperationId>)
        ensures
            is_block_choice(self.view().items, self.block_size(), op_ids(r@)),
    {
        proof {
            use_type_invariant(self);
        }
        let n: usize = if self.ids.len() < self.max_block_operations { self.ids.len() } else { self.max_block_operations };
        let mut r: Vec<OperationId> = Vec::new();
        let mut i: usize = 0;
        while i < n
            invariant
                n <= self.ids@.len(),
                0 <= i <= n,
                r@.len() == i,
                forall|k: int| 0 <= k < i ==> #[trigger] r@[k].0 == self.ids@[k],
            decreases n - i,
        {
            r.push(OperationId(self.ids[i]));
            i = i + 1;
        }
        proof {
            let chosen = op_ids(r@);
            let ids = self.ids@;
            lemma_increasing_unique(ids);
            ids.unique_seq_to_set();
            assert(chosen =~= ids.take(n as int));
            assert forall|k: int| 0 <= k < chosen.len() implies self.view().items.contains(#[trigger] chosen[k]) by {
                assert(ids.contains(ids[k]));
            }
            assert forall|x: u64, k: int|
                #![trigger self.view().items.contains(x), chosen[k]]
                self.view().items.contains(x) && !chosen.contains(x) && 0 <= k < chosen.len()
                implies chosen[k] < x by {
                let j = choose|j: int| 0 <= j < ids.len() && ids[j] == x;
                if j < n {
                    assert(chosen[j] == x);
                }
            }
        }
        r
    }

    /// One membership answer per id, all read from this one state of the pool.
    pub fn contains_operations(&self, ids: &[OperationId]) -> (r: Vec<bool>)
        ensures
            r@.len() == ids@.len(),
            forall|i: int| 0 <= i < ids@.len() ==> #[trigger] r@[i] == self.view().items.contains(ids@[i].0),
    {
        let mut r: Vec<bool> = Vec::new();
        let mut i: usize = 0;
        while i < ids.len()
            invariant
                0 <= i <= ids@.len(),
                r@.len() == i,
                forall|k: int| 0 <= k < i ==> #[trigger] r@[k] == self.view().items.contains(ids@[k].0),
            decreases ids@.len() - i,
        {
            let b = self.contains(&ids[i]);
            r.push(b);
            i = i + 1;
        }
        r
    }

    /// Applies one command from the operations channel and says whether the
    /// worker goes on.
    pub fn process(&mut self, cmd: Command) -> (r: WorkerState)
        ensures
            final(self).view() == op_step(old(self).view(), cmd),
            final(self).block_size() == old(self).block_size(),
            r == state_after(cmd),
    {
        match cmd {
            Command::AddOperations(batch) => {
                self.add_operations(&batch);
                WorkerState::Running
            },
            Command::NotifyFinalCsPeriods(periods) => {
                self.notify_final_cs_periods(&periods);
                WorkerState::Running
            },
            Command::AddEndorsements(_) => WorkerState::Running,
            Command::Stop => WorkerState::Stopped,
        }
    }
}

} // verus!
