use vstd::prelude::*;

verus! {

/// What one pull from the queue yields: `(next', handed batch)`. Nothing is
/// handed once the abort flag is up or the queue is drained.
pub open spec fn spec_take(batches: Seq<Seq<u32>>, next: int, aborted: bool) -> (
    int,
    Option<Seq<u32>>,
) {
    if aborted || next >= batches.len() {
        (next, None)
    } else {
        (next + 1, Some(batches[next]))
    }
}

/// The shared FIFO work queue the download workers pull batches from,
/// together with the cooperative abort flag a failing worker raises. Batches
/// are consumed in order; in-flight workers finish their current batch and
/// observe the abort only at their next pull.
pub struct WorkQueue {
    batches: Vec<Vec<u32>>,
    next: usize,
    aborted: bool,
}

impl WorkQueue {
    pub closed spec fn batches_model(&self) -> Seq<Seq<u32>> {
        self.batches@.map_values(|b: Vec<u32>| b@)
    }

    pub closed spec fn next_model(&self) -> int {
        self.next as int
    }

    pub closed spec fn is_aborted_model(&self) -> bool {
        self.aborted
    }

    pub closed spec fn wf(&self) -> bool {
        self.next <= self.batches@.len()
    }

    /// A fresh queue over the given batches, nothing consumed, not aborted.
    pub fn new(batches: Vec<Vec<u32>>) -> (r: WorkQueue)
        ensures
            r.batches_model() == batches@.map_values(|b: Vec<u32>| b@),
            r.next_model() == 0,
            !r.is_aborted_model(),
            r.wf(),
    {
        WorkQueue { batches, next: 0, aborted: false }
    }

    /// Raises the abort flag; every later pull yields nothing.
    pub fn abort(&mut self)
        ensures
            final(self).is_aborted_model(),
            final(self).batches_model() == old(self).batches_model(),
            final(self).next_model() == old(self).next_model(),
            final(self).wf() == old(self).wf(),
    {
        self.aborted = true;
    }

    pub fn is_aborted(&self) -> (r: bool)
        ensures
            r == self.is_aborted_model(),
    {
        self.aborted
    }

    /// How many batches have not been handed out yet.
    pub fn remaining(&self) -> (r: usize)
        requires
            self.wf(),
        ensures
            r == self.batches_model().len() - self.next_model(),
    {
        self.batches.len() - self.next
    }

    /// One worker pull, as `spec_take` says: the next batch in FIFO order, or
    /// nothing when the queue is drained or aborted.
    pub fn take_next(&mut self) -> (r: Option<Vec<u32>>)
        requires
            old(self).wf(),
        ensures
            final(self).wf(),
            final(self).batches_model() == old(self).batches_model(),
            final(self).is_aborted_model() == old(self).is_aborted_model(),
            (final(self).next_model(), match r {
                Some(b) => Some(b@),
                None => None,
            }) == spec_take(
                old(self).batches_model(),
                old(self).next_model(),
                old(self).is_aborted_model(),
            ),
    {
        if self.aborted || self.next >= self.batches.len() {
            return None;
        }
        let batch = self.batches[self.next].clone();
        assert(batch@ == self.batches_model()[self.next as int]);
        self.next = self.next + 1;
        Some(batch)
    }
}

/// Cancellation and failure stop the pool: once the abort flag is up, a pull
/// hands out no batch, whatever is still pending.
pub proof fn lemma_abort_stops_workers(batches: Seq<Seq<u32>>, next: int)
    ensures
        spec_take(batches, next, true).1 is None,
        spec_take(batches, next, true).0 == next,
{
}

/// The pool terminates: every pull either hands out nothing or strictly
/// shrinks what is pending, so each worker stops after at most the number of
/// pending batches many pulls.
pub proof fn lemma_pool_terminates(batches: Seq<Seq<u32>>, next: int, aborted: bool)
    requires
        0 <= next <= batches.len(),
    ensures
        spec_take(batches, next, aborted).1 is Some ==> batches.len() - spec_take(
            batches,
            next,
            aborted,
        ).0 < batches.len() - next,
        spec_take(batches, next, aborted).1 is None ==> spec_take(batches, next, aborted).0
            == next,
{
}

} // verus!
