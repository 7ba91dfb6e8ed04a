//! The commit cycle: how one snapshot of pending deltas is written out.
//!
//! A cycle opens one transaction, asks for one increase per entry of the
//! snapshot, whatever became of the ones before, and then commits the
//! transaction. The code that talks to storage performs each step it is given
//! and reports whether the call succeeded. An empty snapshot opens nothing.

use crate::field::ShortCode;
use vstd::prelude::*;

verus! {

/// Whether one storage call succeeded.
#[derive(Clone, Copy, Debug, PartialEq, Eq, Structural)]
pub enum CallOutcome {
    Succeeded,
    Failed,
}

/// How a commit cycle ended.
#[derive(Clone, Copy, Debug, PartialEq, Eq, Structural)]
pub enum CommitOutcome {
    /// The snapshot was empty: no transaction was opened.
    Skipped,
    /// Every increase was asked for and the transaction was committed.
    Committed,
    /// The transaction could not be opened; the snapshot was not written.
    BeginFailed,
    /// Every increase was asked for, but committing the transaction failed.
    EndFailed,
}

/// Where a commit cycle stands.
#[derive(Clone, Copy, Debug, PartialEq, Eq, Structural)]
pub enum CyclePhase {
    /// Waiting for the transaction to open.
    Opening,
    /// Waiting for the increase of the entry at this index.
    Applying(usize),
    /// Waiting for the transaction to commit.
    Closing,
    /// Over.
    Finished(CommitOutcome),
}

/// What the cycle asks of the code that talks to storage.
pub enum CommitStep {
    /// Open a transaction.
    Begin,
    /// Increase the stored view count of this code by this much.
    Increase(ShortCode, u32),
    /// Commit the transaction.
    End,
    /// Nothing more: the cycle is over.
    Done(CommitOutcome),
}

/// A step, as the model of the cycle sees it.
pub enum CommitAction {
    Begin,
    Increase(Seq<char>, u32),
    End,
    Done(CommitOutcome),
}

impl View for CommitStep {
    type V = CommitAction;

    open spec fn view(&self) -> CommitAction {
        match self {
            CommitStep::Begin => CommitAction::Begin,
            CommitStep::Increase(code, count) => CommitAction::Increase(code@, *count),
            CommitStep::End => CommitAction::End,
            CommitStep::Done(outcome) => CommitAction::Done(*outcome),
        }
    }
}

/// A snapshot as the codes and counts it lists.
pub open spec fn batch_view(batch: Seq<(ShortCode, u32)>) -> Seq<(Seq<char>, u32)> {
    batch.map_values(|p: (ShortCode, u32)| (p.0@, p.1))
}

/// The first step of a cycle: open a transaction, or, for an empty snapshot,
/// nothing at all.
pub open spec fn cycle_start(batch: Seq<(Seq<char>, u32)>) -> (CyclePhase, CommitAction) {
    if batch.len() == 0 {
        (CyclePhase::Finished(CommitOutcome::Skipped), CommitAction::Done(CommitOutcome::Skipped))
    } else {
        (CyclePhase::Opening, CommitAction::Begin)
    }
}

/// The step after the storage call of `phase` came back with `outcome`. A
/// failed open ends the cycle; a failed increase is passed over like a
/// successful one, so that the next entry, or the commit, always follows.
pub open spec fn cycle_next(batch: Seq<(Seq<char>, u32)>, phase: CyclePhase, outcome: CallOutcome) -> (
    CyclePhase,
    CommitAction,
) {
    match phase {
        CyclePhase::Opening => match outcome {
            CallOutcome::Succeeded => if batch.len() > 0 {
                (CyclePhase::Applying(0), CommitAction::Increase(batch[0].0, batch[0].1))
            } else {
                (CyclePhase::Closing, CommitAction::End)
            },
            CallOutcome::Failed => (
                CyclePhase::Finished(CommitOutcome::BeginFailed),
                CommitAction::Done(CommitOutcome::BeginFailed),
            ),
        },
        CyclePhase::Applying(i) => if i + 1 < batch.len() {
            (
                CyclePhase::Applying((i + 1) as usize),
                CommitAction::Increase(batch[i + 1].0, batch[i + 1].1),
            )
        } else {
            (CyclePhase::Closing, CommitAction::End)
        },
        CyclePhase::Closing => match outcome {
            CallOutcome::Succeeded => (
                CyclePhase::Finished(CommitOutcome::Committed),
                CommitAction::Done(CommitOutcome::Committed),
            ),
            CallOutcome::Failed => (
                CyclePhase::Finished(CommitOutcome::EndFailed),
                CommitAction::Done(CommitOutcome::EndFailed),
            ),
        },
        CyclePhase::Finished(o) => (CyclePhase::Finished(o), CommitAction::Done(o)),
    }
}

/// The phase after a run of call outcomes, and the steps asked for on the way.
pub open spec fn drive(batch: Seq<(Seq<char>, u32)>, phase: CyclePhase, outcomes: Seq<CallOutcome>) -> (
    CyclePhase,
    Seq<CommitAction>,
)
    decreases outcomes.len(),
{
    if outcomes.len() == 0 {
        (phase, Seq::empty())
    } else {
        let first = cycle_next(batch, phase, outcomes[0]);
        let rest = drive(batch, first.0, outcomes.drop_first());
        (rest.0, seq![first.1] + rest.1)
    }
}

/// One increase per entry of the snapshot, in order.
pub open spec fn increases(batch: Seq<(Seq<char>, u32)>) -> Seq<CommitAction> {
    batch.map_values(|p: (Seq<char>, u32)| CommitAction::Increase(p.0, p.1))
}

/// One commit cycle over a snapshot.
pub struct CommitCycle {
    batch: Vec<(ShortCode, u32)>,
    phase: CyclePhase,
}

impl CommitCycle {
    /// The snapshot the cycle writes out.
    pub closed spec fn batch(&self) -> Seq<(Seq<char>, u32)> {
        batch_view(self.batch@)
    }

    /// Where the cycle stands.
    pub closed spec fn phase(&self) -> CyclePhase {
        self.phase
    }

    /// The phase fits the snapshot.
    pub closed spec fn wf(&self) -> bool {
        match self.phase {
            CyclePhase::Opening => self.batch@.len() > 0,
            CyclePhase::Applying(i) => i < self.batch@.len(),
            _ => true,
        }
    }

    /// Starts a cycle over `batch` and returns its first step, as
    /// [`cycle_start`] says.
    pub fn new(batch: Vec<(ShortCode, u32)>) -> (r: (CommitCycle, CommitStep))
        ensures
            r.0.wf(),
            r.0.batch() == batch_view(batch@),
            (r.0.phase(), r.1@) == cycle_start(batch_view(batch@)),
    {
        if batch.len() == 0 {
            let cycle = CommitCycle { batch, phase: CyclePhase::Finished(CommitOutcome::Skipped) };
            (cycle, CommitStep::Done(CommitOutcome::Skipped))
        } else {
            (CommitCycle { batch, phase: CyclePhase::Opening }, CommitStep::Begin)
        }
    }

    /// True once the cycle is over.
    pub fn is_finished(&self) -> (r: bool)
        ensures
            r == self.phase() is Finished,
    {
        match self.phase {
            CyclePhase::Finished(_) => true,
            _ => false,
        }
    }

    /// Takes the outcome of the last storage call and returns the next step,
    /// as [`cycle_next`] says.
    pub fn advance(&mut self, outcome: CallOutcome) -> (r: CommitStep)
        requires
            old(self).wf(),
        ensures
            final(self).wf(),
            final(self).batch() == old(self).batch(),
            (final(self).phase(), r@) == cycle_next(old(self).batch(), old(self).phase(), outcome),
    {
        match self.phase {
            CyclePhase::Opening => match outcome {
                CallOutcome::Succeeded => {
                    self.phase = CyclePhase::Applying(0);
                    let code = self.batch[0].0.duplicate();
                    CommitStep::Increase(code, self.batch[0].1)
                },
                CallOutcome::Failed => {
                    self.phase = CyclePhase::Finished(CommitOutcome::BeginFailed);
                    CommitStep::Done(CommitOutcome::BeginFailed)
                },
            },
            CyclePhase::Applying(i) => {
                if i < self.batch.len() - 1 {
                    self.phase = CyclePhase::Applying(i + 1);
                    let code = self.batch[i + 1].0.duplicate();
                    CommitStep::Increase(code, self.batch[i + 1].1)
                } else {
                    self.phase = CyclePhase::Closing;
                    CommitStep::End
                }
            },
            CyclePhase::Closing => match outcome {
                CallOutcome::Succeeded => {
                    self.phase = CyclePhase::Finished(CommitOutcome::Committed);
                    CommitStep::Done(CommitOutcome::Committed)
                },
                CallOutcome::Failed => {
                    self.phase = CyclePhase::Finished(CommitOutcome::EndFailed);
                    CommitStep::Done(CommitOutcome::EndFailed)
                },
            },
            CyclePhase::Finished(o) => CommitStep::Done(o),
        }
    }
}

proof fn lemma_drive_applying(batch: Seq<(Seq<char>, u32)>, i: int, outcomes: Seq<CallOutcome>)
    requires
        batch.len() <= usize::MAX,
        0 <= i < batch.len(),
        outcomes.len() == batch.len() - i,
    ensures
        drive(batch, CyclePhase::Applying(i as usize), outcomes) == (
        CyclePhase::Closing,
        increases(batch).subrange(i + 1, batch.len() as int) + seq![CommitAction::End],
        ),
    decreases batch.len() - i,
{
    let rest = outcomes.drop_first();
    let first = cycle_next(batch, CyclePhase::Applying(i as usize), outcomes[0]);
    if i + 1 < batch.len() {
        assert(increases(batch)[i + 1] == CommitAction::Increase(batch[i + 1].0, batch[i + 1].1));
        assert(first == (CyclePhase::Applying((i + 1) as usize), increases(batch)[i + 1]));
        lemma_drive_applying(batch, i + 1, rest);
        assert(seq![increases(batch)[i + 1]] + (increases(batch).subrange(
            i + 2,
            batch.len() as int,
        ) + seq![CommitAction::End]) =~= increases(batch).subrange(i + 1, batch.len() as int)
            + seq![CommitAction::End]);
    } else {
        assert(rest.len() == 0);
        assert(first == (CyclePhase::Closing, CommitAction::End));
        assert(drive(batch, CyclePhase::Closing, rest) == (CyclePhase::Closing, Seq::<CommitAction>::empty()));
        assert(increases(batch).subrange(i + 1, batch.len() as int) + seq![CommitAction::End]
            =~= seq![CommitAction::End]);
        assert(seq![CommitAction::End] + Seq::<CommitAction>::empty() =~= seq![CommitAction::End]);
    }
}

/// A failed increase does not stop the cycle: for a snapshot of `n` entries
/// and any outcomes of the `n` increase calls, failures included, once the
/// transaction is open the cycle asks for the increase of every entry, in
/// order, and then for the commit of the transaction.
pub proof fn every_entry_is_attempted(batch: Seq<(Seq<char>, u32)>, outcomes: Seq<CallOutcome>)
    requires
        batch.len() <= usize::MAX,
        batch.len() > 0,
        outcomes.len() == batch.len(),
    ensures
        cycle_start(batch) == (CyclePhase::Opening, CommitAction::Begin),
        drive(batch, CyclePhase::Opening, seq![CallOutcome::Succeeded] + outcomes) == (
        CyclePhase::Closing,
        increases(batch) + seq![CommitAction::End],
        ),
{
    let all = seq![CallOutcome::Succeeded] + outcomes;
    assert(all[0] == CallOutcome::Succeeded);
    assert(all.drop_first() =~= outcomes);
    assert(increases(batch)[0] == CommitAction::Increase(batch[0].0, batch[0].1));
    lemma_drive_applying(batch, 0, outcomes);
    assert(seq![increases(batch)[0]] + (increases(batch).subrange(1, batch.len() as int) + seq![
        CommitAction::End,
    ]) =~= increases(batch) + seq![CommitAction::End]);
}

} // verus!
