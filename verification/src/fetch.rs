//! The bookkeeping of a batch of registry lookups that run side by side: one
//! slot per requested name, filled when the lookup for it settles.

use crate::planner::{FetchOutcome, OutcomeView};
use vstd::prelude::*;

verus! {

/// How many slots of a batch hold an outcome.
pub open spec fn settled_count(slots: Seq<Option<OutcomeView>>) -> nat
    decreases slots.len(),
{
    if slots.len() == 0 {
        0
    } else {
        settled_count(slots.drop_last()) + if slots.last() is Some {
            1nat
        } else {
            0nat
        }
    }
}

/// How many slots of a batch hold a failure.
pub open spec fn failed_count(slots: Seq<Option<OutcomeView>>) -> nat
    decreases slots.len(),
{
    if slots.len() == 0 {
        0
    } else {
        failed_count(slots.drop_last()) + if slots.last() matches Some(OutcomeView::Failed { .. }) {
            1nat
        } else {
            0nat
        }
    }
}

/// How many slots of a batch hold a version that was fetched.
pub open spec fn fetched_count(slots: Seq<Option<OutcomeView>>) -> nat
    decreases slots.len(),
{
    if slots.len() == 0 {
        0
    } else {
        fetched_count(slots.drop_last()) + if slots.last() matches Some(
            OutcomeView::Fetched { .. },
        ) {
            1nat
        } else {
            0nat
        }
    }
}

/// The name that an outcome was produced for.
pub open spec fn outcome_name(outcome: OutcomeView) -> Seq<char> {
    match outcome {
        OutcomeView::Fetched { name, .. } => name,
        OutcomeView::Failed { name, .. } => name,
    }
}

/// Filling an empty slot raises the count of settled slots by one.
pub proof fn lemma_settle_counts(slots: Seq<Option<OutcomeView>>, index: int, outcome: OutcomeView)
    requires
        0 <= index < slots.len(),
        slots[index] is None,
    ensures
        settled_count(slots.update(index, Some(outcome))) == settled_count(slots) + 1,
    decreases slots.len(),
{
    let filled = slots.update(index, Some(outcome));
    if index == slots.len() - 1 {
        assert(filled.drop_last() == slots.drop_last());
    } else {
        assert(filled.drop_last() == slots.drop_last().update(index, Some(outcome)));
        lemma_settle_counts(slots.drop_last(), index, outcome);
    }
}

/// Every settled slot holds either a failure or a fetched version, and the
/// count of settled slots reaches the number of slots exactly when none is
/// empty.
pub proof fn lemma_counts(slots: Seq<Option<OutcomeView>>)
    ensures
        settled_count(slots) == failed_count(slots) + fetched_count(slots),
        settled_count(slots) <= slots.len(),
        settled_count(slots) == slots.len() <==> forall|i: int|
            0 <= i < slots.len() ==> slots[i] is Some,
    decreases slots.len(),
{
    if slots.len() > 0 {
        let front = slots.drop_last();
        lemma_counts(front);
        if settled_count(slots) == slots.len() {
            assert forall|i: int| 0 <= i < slots.len() implies slots[i] is Some by {
                if i < front.len() {
                    assert(front[i] is Some);
                }
            }
        }
        if forall|i: int| 0 <= i < slots.len() ==> slots[i] is Some {
            assert forall|i: int| 0 <= i < front.len() implies front[i] is Some by {
                assert(slots[i] is Some);
            }
            assert(slots.last() is Some);
        }
    }
}

/// The slots of a batch, with the count of those that hold an outcome.
#[derive(Debug)]
struct Ledger {
    slots: Vec<Option<FetchOutcome>>,
    settled: usize,
}

impl Ledger {
    spec fn counted(&self) -> bool {
        self.settled == settled_count(self.slots.deep_view())
    }

    /// Puts `outcome` into the empty slot `index` and counts it.
    fn fill(&mut self, index: usize, outcome: FetchOutcome)
        requires
            old(self).counted(),
            index < old(self).slots.len(),
            old(self).slots.deep_view()[index as int] is None,
        ensures
            final(self).counted(),
            final(self).settled == old(self).settled + 1,
            final(self).slots.deep_view() == old(self).slots.deep_view().update(
                index as int,
                Some(outcome@),
            ),
        no_unwind
    {
        proof {
            lemma_settle_counts(self.slots.deep_view(), index as int, outcome@);
            lemma_counts(self.slots.deep_view());
        }
        let ghost before = self.slots.deep_view();
        self.slots[index] = Some(outcome);
        self.settled = self.settled + 1;
        assert(self.slots.deep_view() =~= before.update(index as int, Some(outcome@)));
    }
}

/// A batch of lookups: the names that were asked for and, for each, the
/// outcome once it is there.
#[derive(Debug)]
pub struct FetchBatch {
    names: Vec<String>,
    ledger: Ledger,
}

impl FetchBatch {
    /// The names that the batch was made for.
    pub closed spec fn requested(&self) -> Seq<Seq<char>> {
        self.names.deep_view()
    }

    /// The slots of the batch, one per requested name.
    pub closed spec fn slots(&self) -> Seq<Option<OutcomeView>> {
        self.ledger.slots.deep_view()
    }

    /// The value of the progress counter.
    pub closed spec fn progress_value(&self) -> nat {
        self.ledger.settled as nat
    }

    /// What holds of every batch: there is one slot per name, an outcome
    /// stands in the slot of the name it was produced for, and the progress
    /// counter counts the settled slots.
    #[verifier::type_invariant]
    pub open spec fn wf(&self) -> bool {
        &&& self.slots().len() == self.requested().len()
        &&& self.progress_value() == settled_count(self.slots())
        &&& forall|i: int|
            0 <= i < self.slots().len() ==> (#[trigger] self.slots()[i] matches Some(outcome)
                ==> outcome_name(outcome) == self.requested()[i])
    }

    /// The batch has an outcome for every name.
    pub open spec fn complete(&self) -> bool {
        forall|i: int| 0 <= i < self.slots().len() ==> self.slots()[i] is Some
    }

    /// A batch for `names`, with nothing settled yet.
    pub fn new(names: Vec<String>) -> (batch: FetchBatch)
        ensures
            batch.wf(),
            batch.requested() == names.deep_view(),
            batch.progress_value() == 0,
            forall|i: int| 0 <= i < batch.slots().len() ==> batch.slots()[i] is None,
    {
        let mut slots: Vec<Option<FetchOutcome>> = Vec::new();
        let mut i: usize = 0;
        while i < names.len()
            invariant
                i <= names.len(),
                slots.len() == i,
                forall|j: int| 0 <= j < i ==> slots.deep_view()[j] is None,
                settled_count(slots.deep_view()) == 0,
            decreases names.len() - i,
        {
            let ghost before = slots.deep_view();
            slots.push(None);
            proof {
                assert(slots.deep_view() =~= before.push(None));
                assert(slots.deep_view().drop_last() =~= before);
            }
            i += 1;
        }
        FetchBatch { names, ledger: Ledger { slots, settled: 0 } }
    }

    /// How many names were asked for.
    pub fn len(&self) -> (n: usize)
        ensures
            n == self.requested().len(),
    {
        self.names.len()
    }

    /// The name that slot `index` belongs to, if there is such a slot.
    pub fn name(&self, index: usize) -> (name: Option<&String>)
        ensures
            match name {
                Some(found) => index < self.requested().len() && found@
                    == self.requested()[index as int],
                None => index >= self.requested().len(),
            },
    {
        if index < self.names.len() {
            Some(&self.names[index])
        } else {
            None
        }
    }

    /// How many lookups have settled.
    pub fn progress(&self) -> (n: usize)
        ensures
            self.wf(),
            n == self.progress_value(),
            n == settled_count(self.slots()),
            n <= self.requested().len(),
            n == self.requested().len() <==> self.complete(),
    {
        proof {
            use_type_invariant(self);
            lemma_counts(self.slots());
        }
        self.ledger.settled
    }

    /// Whether every lookup has settled.
    pub fn is_complete(&self) -> (r: bool)
        ensures
            self.wf(),
            r == self.complete(),
            r == (self.progress_value() == self.requested().len()),
    {
        proof {
            use_type_invariant(self);
            lemma_counts(self.slots());
        }
        self.ledger.settled == self.names.len()
    }

    /// Records that the lookup for the name at `index` has settled: with
    /// the latest version, or with the reason of its failure. The slot is
    /// filled and the progress counter goes up by one. A slot that does
    /// not exist or is filled already is refused: the result is `false`
    /// and the batch stays as it is.
    pub fn settle(&mut self, index: usize, result: Result<String, String>) -> (taken: bool)
        ensures
            old(self).wf(),
            final(self).wf(),
            final(self).requested() == old(self).requested(),
            taken == (index < old(self).slots().len() && old(self).slots()[index as int] is None),
            taken ==> final(self).progress_value() == old(self).progress_value() + 1
                && final(self).slots() == old(self).slots().update(
                index as int,
                Some(
                    match result {
                        Ok(latest) => OutcomeView::Fetched {
                            name: old(self).requested()[index as int],
                            latest: latest@,
                        },
                        Err(reason) => OutcomeView::Failed {
                            name: old(self).requested()[index as int],
                            reason: reason@,
                        },
                    },
                ),
            ),
            !taken ==> *final(self) == *old(self),
    {
        proof {
            use_type_invariant(&*self);
        }
        if index >= self.ledger.slots.len() {
            return false;
        }
        if self.ledger.slots[index].is_some() {
            return false;
        }
        let name = self.names[index].clone();
        let outcome = match result {
            Ok(latest) => FetchOutcome::Fetched { name, latest },
            Err(reason) => FetchOutcome::Failed { name, reason },
        };
        assert(self.slots()[index as int] is None);
        self.ledger.fill(index, outcome);
        true
    }

    /// The outcomes of a complete batch, one per requested name and in the
    /// order of the names; `None` while a lookup is still out.
    pub fn outcomes(&self) -> (r: Option<Vec<FetchOutcome>>)
        ensures
            self.wf(),
            r is Some <==> self.complete(),
            r matches Some(outcomes) ==> {
                &&& outcomes.len() == self.requested().len()
                &&& outcomes.len() == self.progress_value()
                &&& forall|i: int|
                    0 <= i < outcomes.len() ==> self.slots()[i] == Some(
                        #[trigger] outcomes.deep_view()[i],
                    )
                &&& forall|i: int|
                    0 <= i < outcomes.len() ==> outcome_name(#[trigger] outcomes.deep_view()[i])
                        == self.requested()[i]
            },
    {
        proof {
            use_type_invariant(self);
            lemma_counts(self.slots());
        }
        let mut outcomes: Vec<FetchOutcome> = Vec::new();
        let mut i: usize = 0;
        while i < self.ledger.slots.len()
            invariant
                self.wf(),
                i <= self.ledger.slots.len(),
                outcomes.len() == i,
                forall|j: int|
                    0 <= j < i ==> self.slots()[j] == Some(#[trigger] outcomes.deep_view()[j]),
            decreases self.ledger.slots.len() - i,
        {
            let ghost before = outcomes.deep_view();
            match &self.ledger.slots[i] {
                Some(outcome) => {
                    let copy = copy_outcome(outcome);
                    outcomes.push(copy);
                    proof {
                        assert(self.slots()[i as int] == Some(outcome@));
                        assert(outcomes.deep_view() =~= before.push(copy@));
                    }
                },
                None => {
                    assert(self.slots()[i as int] is None);
                    return None;
                },
            }
            i += 1;
        }
        assert forall|j: int| 0 <= j < self.slots().len() implies self.slots()[j] is Some by {
            assert(self.slots()[j] == Some(outcomes.deep_view()[j]));
        }
        assert forall|j: int| 0 <= j < outcomes.len() implies outcome_name(
            #[trigger] outcomes.deep_view()[j],
        ) == self.requested()[j] by {
            assert(self.slots()[j] == Some(outcomes.deep_view()[j]));
        }
        Some(outcomes)
    }
}

/// A copy of an outcome.
pub fn copy_outcome(outcome: &FetchOutcome) -> (copy: FetchOutcome)
    ensures
        copy@ == outcome@,
{
    match outcome {
        FetchOutcome::Fetched { name, latest } => FetchOutcome::Fetched {
            name: name.clone(),
            latest: latest.clone(),
        },
        FetchOutcome::Failed { name, reason } => FetchOutcome::Failed {
            name: name.clone(),
            reason: reason.clone(),
        },
    }
}

/// Fan-in is complete: once every lookup of a batch has settled, the
/// progress counter stands at the number of requested names, every name
/// has its outcome, and the failures and the fetched versions together are
/// as many as the names.
pub proof fn lemma_fan_in_complete(batch: FetchBatch)
    requires
        batch.wf(),
        batch.complete(),
    ensures
        batch.progress_value() == batch.requested().len(),
        batch.slots().len() == batch.requested().len(),
        failed_count(batch.slots()) + fetched_count(batch.slots()) == batch.requested().len(),
        forall|i: int|
            0 <= i < batch.requested().len() ==> (#[trigger] batch.slots()[i] matches Some(outcome)
                && outcome_name(outcome) == batch.requested()[i]),
{
    lemma_counts(batch.slots());
}

} // verus!
