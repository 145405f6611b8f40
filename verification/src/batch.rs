//! Sequential progress of one anonymization run.
//!
//! The run processes its file pairings strictly in list order, one at a time;
//! the first failure halts it. A [`Batch`] records that progress: at every
//! point the outputs written so far are exactly the first pairings of the
//! plan, in order, and after a failure nothing further is written.

use vstd::prelude::*;
use crate::pairing::FilePair;

verus! {

/// Progress of one run over its planned file pairings.
pub struct Batch {
    pairs: Vec<FilePair>,
    next: usize,
    halted: bool,
}

impl Batch {
    /// The pairings the run was planned with, in order.
    pub closed spec fn planned(self) -> Seq<(Seq<char>, Seq<char>)> {
        self.pairs@.map_values(|p: FilePair| p@)
    }

    /// The pairings whose outputs have been written, in the order written.
    pub closed spec fn written(self) -> Seq<(Seq<char>, Seq<char>)> {
        self.planned().take(self.next as int)
    }

    /// Whether a failure has halted the run.
    pub closed spec fn halted(self) -> bool {
        self.halted
    }

    /// The batch's progress counter never passes its plan.
    pub closed spec fn wf(self) -> bool {
        self.next <= self.pairs@.len()
    }

    /// A new run over `pairs`: nothing written, nothing failed.
    pub fn new(pairs: Vec<FilePair>) -> (b: Batch)
        ensures
            b.wf(),
            b.planned() == pairs@.map_values(|p: FilePair| p@),
            b.written() == Seq::<(Seq<char>, Seq<char>)>::empty(),
            !b.halted(),
    {
        let b = Batch { pairs, next: 0, halted: false };
        proof {
            assert(b.written() =~= Seq::<(Seq<char>, Seq<char>)>::empty());
        }
        b
    }

    /// The pairing to process next, if the run is neither done nor halted.
    pub fn current(&self) -> (r: Option<&FilePair>)
        requires
            self.wf(),
        ensures
            r is Some <==> (!self.halted() && self.written().len() < self.planned().len()),
            r matches Some(p) ==> p@ == self.planned()[self.written().len() as int],
    {
        if self.halted || self.next >= self.pairs.len() {
            None
        } else {
            Some(&self.pairs[self.next])
        }
    }

    /// Records that the current pairing's output was written: the written
    /// sequence grows by exactly that pairing.
    pub fn record_written(&mut self)
        requires
            old(self).wf(),
            !old(self).halted(),
            old(self).written().len() < old(self).planned().len(),
        ensures
            final(self).wf(),
            final(self).planned() == old(self).planned(),
            !final(self).halted(),
            final(self).written() == old(self).written().push(
                old(self).planned()[old(self).written().len() as int],
            ),
    {
        let len = self.pairs.len();
        assert(self.next < len);
        self.next = self.next + 1;
        proof {
            assert(self.written() =~= old(self).written().push(
                old(self).planned()[old(self).written().len() as int],
            ));
        }
    }

    /// Records a failure: the run halts and nothing further is written.
    pub fn record_failure(&mut self)
        requires
            old(self).wf(),
        ensures
            final(self).wf(),
            final(self).planned() == old(self).planned(),
            final(self).halted(),
            final(self).written() == old(self).written(),
    {
        self.halted = true;
    }

    /// How many outputs have been written.
    pub fn written_count(&self) -> (n: usize)
        requires
            self.wf(),
        ensures
            n == self.written().len(),
    {
        self.next
    }

    /// Whether a failure has halted the run.
    pub fn is_halted(&self) -> (h: bool)
        ensures
            h == self.halted(),
    {
        self.halted
    }
}

/// Ordering law: whatever state a run is in, the outputs written are exactly
/// the first pairings of its plan, in plan order.
pub proof fn lemma_written_is_plan_prefix(b: Batch)
    requires
        b.wf(),
    ensures
        b.written().len() <= b.planned().len(),
        forall|i: int| 0 <= i < b.written().len() ==> b.written()[i] == b.planned()[i],
{
}

/// Completion law: a run that wrote as many outputs as it planned has written
/// every planned pairing, in plan order.
pub proof fn lemma_complete_run(b: Batch)
    requires
        b.wf(),
        b.written().len() == b.planned().len(),
    ensures
        b.written() == b.planned(),
{
    assert(b.written() =~= b.planned());
}

} // verus!
