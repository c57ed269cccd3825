use vstd::prelude::*;
use crate::command::{BlockId, Command, Endorsement, EndorsementId, Slot, WorkerState, state_after};

verus! {

/// The ids of a sequence of endorsements.
pub open spec fn endorsement_ids(s: Seq<Endorsement>) -> Seq<u64> {
    s.map_values(|e: Endorsement| e.id.0)
}

/// Admission of one endorsement: appended unless its id is already pending.
pub open spec fn admit_one(s: Seq<Endorsement>, e: Endorsement) -> Seq<Endorsement> {
    if endorsement_ids(s).contains(e.id.0) {
        s
    } else {
        s.push(e)
    }
}

/// Admission of a batch, one endorsement after the other.
pub open spec fn admit_all(s: Seq<Endorsement>, b: Seq<Endorsement>) -> Seq<Endorsement>
    decreases b.len(),
{
    if b.len() == 0 {
        s
    } else {
        admit_one(admit_all(s, b.drop_last()), b.last())
    }
}

/// Whether an endorsement fits a block at `slot` that builds on `block`, at position `index`.
pub open spec fn fits(e: Endorsement, block: BlockId, slot: Slot, index: int) -> bool {
    e.slot == slot && e.endorsed_block == block && e.index == index
}

/// The first endorsement from position `j` on that fits, if any.
pub open spec fn first_fit(s: Seq<Endorsement>, j: int, block: BlockId, slot: Slot, index: int) -> Option<Endorsement>
    decreases s.len() - j,
{
    if j < 0 || j >= s.len() {
        None
    } else if fits(s[j], block, slot, index) {
        Some(s[j])
    } else {
        first_fit(s, j + 1, block, slot, index)
    }
}

/// For each of the `count` positions of a block, the first fitting endorsement.
pub open spec fn block_fill(s: Seq<Endorsement>, count: nat, block: BlockId, slot: Slot) -> Seq<Option<EndorsementId>> {
    Seq::new(count, |i: int| id_of(first_fit(s, 0, block, slot, i)))
}

/// The id of an endorsement that may be absent.
pub open spec fn id_of(o: Option<Endorsement>) -> Option<EndorsementId> {
    match o {
        Some(e) => Some(e.id),
        None => None,
    }
}

/// The endorsements chosen for the first `count` positions, in position
/// order, absent positions skipped.
pub open spec fn chosen_entries(s: Seq<Endorsement>, count: nat, block: BlockId, slot: Slot) -> Seq<Endorsement>
    decreases count,
{
    if count == 0 {
        Seq::empty()
    } else {
        let before = chosen_entries(s, (count - 1) as nat, block, slot);
        match first_fit(s, 0, block, slot, count - 1) {
            Some(e) => before.push(e),
            None => before,
        }
    }
}

/// The pool of pending endorsements, in order of admission, each id at most
/// once, with the last final periods it was told of.
#[derive(Debug)]
pub struct EndorsementPool {
    entries: Vec<Endorsement>,
    final_cs_periods: Vec<u64>,
    endorsement_count: u32,
}

/// The abstract state of an endorsement pool.
pub struct EndorsementPoolView {
    pub entries: Seq<Endorsement>,
    pub final_cs_periods: Seq<u64>,
}

/// The effect of one command on an endorsement pool.
pub open spec fn endorsement_step(v: EndorsementPoolView, cmd: Command) -> EndorsementPoolView {
    match cmd {
        Command::AddEndorsements(b) => EndorsementPoolView {
            entries: admit_all(v.entries, b@),
            final_cs_periods: v.final_cs_periods,
        },
        Command::NotifyFinalCsPeriods(p) => EndorsementPoolView {
            entries: v.entries,
            final_cs_periods: p@,
        },
        _ => v,
    }
}

impl Clone for EndorsementPool {
    /// A copy of the pool's contents.
    fn clone(&self) -> (r: Self) {
        let entries = self.entries.clone();
        proof {
            use_type_invariant(self);
            assert(entries@ =~= self.entries@);
        }
        EndorsementPool { entries, final_cs_periods: self.final_cs_periods.clone(), endorsement_count: self.endorsement_count }
    }
}

impl EndorsementPool {
    #[verifier::type_invariant]
    spec fn inv(self) -> bool {
        endorsement_ids(self.entries@).no_duplicates()
    }

    pub closed spec fn view(self) -> EndorsementPoolView {
        EndorsementPoolView { entries: self.entries@, final_cs_periods: self.final_cs_periods@ }
    }

    /// How many endorsements a block holds.
    pub closed spec fn slots_per_block(self) -> nat {
        self.endorsement_count as nat
    }

    /// An empty pool for blocks that hold `endorsement_count` endorsements.
    pub fn new(endorsement_count: u32) -> (r: EndorsementPool)
        ensures
            r.view().entries == Seq::<Endorsement>::empty(),
            r.view().final_cs_periods == Seq::<u64>::empty(),
            r.slots_per_block() == endorsement_count,
    {
        let r = EndorsementPool { entries: Vec::new(), final_cs_periods: Vec::new(), endorsement_count };
        assert(endorsement_ids(r.entries@) =~= Seq::<u64>::empty());
        r
    }

    /// Number of pending endorsements.
    pub fn len(&self) -> (r: usize)
        ensures
            r == self.view().entries.len(),
    {
        self.entries.len()
    }

    /// Whether an endorsement with this id is pending.
    pub fn contains(&self, id: &EndorsementId) -> (r: bool)
        ensures
            r == endorsement_ids(self.view().entries).contains(id.0),
    {
        let mut i: usize = 0;
        while i < self.entries.len()
            invariant
                0 <= i <= self.entries@.len(),
                forall|k: int| 0 <= k < i ==> self.entries@[k].id.0 != id.0,
            decreases self.entries@.len() - i,
        {
            if self.entries[i].id.0 == id.0 {
                assert(endorsement_ids(self.entries@)[i as int] == id.0);
                return true;
            }
            i = i + 1;
        }
        proof {
            if endorsement_ids(self.entries@).contains(id.0) {
                let k = choose|k: int| 0 <= k < endorsement_ids(self.entries@).len() && endorsement_ids(self.entries@)[k] == id.0;
                assert(self.entries@[k].id.0 == id.0);
            }
        }
        false
    }

    /// Admits one endorsement unless its id is already pending.
    fn accept(&mut self, e: Endorsement)
        ensures
            final(self).view().entries == admit_one(old(self).view().entries, e),
            final(self).view().final_cs_periods == old(self).view().final_cs_periods,
            final(self).slots_per_block() == old(self).slots_per_block(),
    {
        proof {
            use_type_invariant(&*self);
        }
        if self.contains(&e.id) {
            return;
        }
        let mut entries = self.entries.clone();
        assert(entries@ =~= self.entries@);
        entries.push(e);
        proof {
            let s = self.entries@;
            assert(endorsement_ids(entries@) =~= endorsement_ids(s).push(e.id.0));
        }
        self.entries = entries;
    }

    /// Admits a batch of endorsements in order; ids already pending are skipped.
    pub fn add_endorsements(&mut self, batch: &Vec<Endorsement>)
        ensures
            final(self).view().entries == admit_all(old(self).view().entries, batch@),
            final(self).view().final_cs_periods == old(self).view().final_cs_periods,
            final(self).slots_per_block() == old(self).slots_per_block(),
    {
        let mut i: usize = 0;
        while i < batch.len()
            invariant
                0 <= i <= batch@.len(),
                self.view().entries == admit_all(old(self).view().entries, batch@.subrange(0, i as int)),
                self.view().final_cs_periods == old(self).view().final_cs_periods,
                self.slots_per_block() == old(self).slots_per_block(),
            decreases batch@.len() - i,
        {
            self.accept(batch[i]);
            assert(batch@.subrange(0, i + 1).drop_last() =~= batch@.subrange(0, i as int));
            i = i + 1;
        }
        assert(batch@.subrange(0, batch@.len() as int) =~= batch@);
    }

    /// The last final periods the pool was told of.
    pub fn final_cs_periods(&self) -> (r: Vec<u64>)
        ensures
            r@ == self.view().final_cs_periods,
    {
        self.final_cs_periods.clone()
    }

    /// Records the final periods (one per thread) that consensus reported.
    pub fn notify_final_cs_periods(&mut self, periods: &Vec<u64>)
        ensures
            final(self).view().entries == old(self).view().entries,
            final(self).view().final_cs_periods == periods@,
            final(self).slots_per_block() == old(self).slots_per_block(),
    {
        proof {
            use_type_invariant(&*self);
        }
        self.final_cs_periods = periods.clone();
    }

    /// The first pending endorsement that fits the block at `index`, if any.
    fn find(&self, target_block: &BlockId, target_slot: &Slot, index: u32) -> (r: Option<Endorsement>)
        ensures
            r == first_fit(self.view().entries, 0, *target_block, *target_slot, index as int),
    {
        let mut j: usize = 0;
        while j < self.entries.len()
            invariant
                0 <= j <= self.entries@.len(),
                first_fit(self.entries@, 0, *target_block, *target_slot, index as int)
                    == first_fit(self.entries@, j as int, *target_block, *target_slot, index as int),
            decreases self.entries@.len() - j,
        {
            let e = self.entries[j];
            if e.slot == *target_slot && e.endorsed_block == *target_block && e.index == index {
                return Some(e);
            }
            j = j + 1;
        }
        None
    }

    /// For each of `count` endorsement positions of a block at `target_slot`
    /// building on `target_block`, the first pending endorsement that fits it
    /// or `None`; and the chosen endorsements themselves, in position order.
    pub fn select_endorsements(&self, target_block: &BlockId, target_slot: &Slot, count: u32) -> (r: (Vec<Option<EndorsementId>>, Vec<Endorsement>))
        ensures
            r.0@ == block_fill(self.view().entries, count as nat, *target_block, *target_slot),
            r.1@ == chosen_entries(self.view().entries, count as nat, *target_block, *target_slot),
    {
        let mut ids: Vec<Option<EndorsementId>> = Vec::new();
        let mut items: Vec<Endorsement> = Vec::new();
        let mut i: u32 = 0;
        while i < count
            invariant
                0 <= i <= count,
                ids@.len() == i,
                forall|k: int| 0 <= k < i ==>
                    #[trigger] ids@[k] == id_of(first_fit(self.entries@, 0, *target_block, *target_slot, k)),
                items@ == chosen_entries(self.entries@, i as nat, *target_block, *target_slot),
            decreases count - i,
        {
            match self.find(target_block, target_slot, i) {
                Some(e) => {
                    ids.push(Some(e.id));
                    items.push(e);
                },
                None => {
                    ids.push(None);
                },
            }
            i = i + 1;
        }
        assert(ids@ =~= block_fill(self.entries@, count as nat, *target_block, *target_slot));
        (ids, items)
    }

    /// The endorsements for a block at `target_slot` building on
    /// `target_block`, one position for each endorsement a block holds.
    pub fn get_block_endorsements(&self, target_block: &BlockId, target_slot: &Slot) -> (r: (Vec<Option<EndorsementId>>, Vec<Endorsement>))
        ensures
            r.0@ == block_fill(self.view().entries, self.slots_per_block(), *target_block, *target_slot),
            r.1@ == chosen_entries(self.view().entries, self.slots_per_block(), *target_block, *target_slot),
    {
        self.select_endorsements(target_block, target_slot, self.endorsement_count)
    }

    /// One membership answer per id, all read from this one state of the pool.
    pub fn contains_endorsements(&self, ids: &[EndorsementId]) -> (r: Vec<bool>)
        ensures
            r@.len() == ids@.len(),
            forall|i: int| 0 <= i < ids@.len() ==>
                #[trigger] r@[i] == endorsement_ids(self.view().entries).contains(ids@[i].0),
    {
        let mut r: Vec<bool> = Vec::new();
        let mut i: usize = 0;
        while i < ids.len()
            invariant
                0 <= i <= ids@.len(),
                r@.len() == i,
                forall|k: int| 0 <= k < i ==>
                    #[trigger] r@[k] == endorsement_ids(self.entries@).contains(ids@[k].0),
            decreases ids@.len() - i,
        {
            let b = self.contains(&ids[i]);
            r.push(b);
            i = i + 1;
        }
        r
    }

    /// Applies one command from the endorsements channel and says whether the
    /// worker goes on.
    pub fn process(&mut self, cmd: Command) -> (r: WorkerState)
        ensures
            final(self).view() == endorsement_step(old(self).view(), cmd),
            final(self).slots_per_block() == old(self).slots_per_block(),
            r == state_after(cmd),
    {
        match cmd {
            Command::AddEndorsements(batch) => {
                self.add_endorsements(&batch);
                WorkerState::Running
            },
            Command::NotifyFinalCsPeriods(periods) => {
                self.notify_final_cs_periods(&periods);
                WorkerState::Running
            },
            Command::AddOperations(_) => WorkerState::Running,
            Command::Stop => WorkerState::Stopped,
        }
    }
}

} // verus!
