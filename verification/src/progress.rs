//! How a run of store writes proceeds and ends.
//!
//! The writes of one indexing call go to the store one after another. The
//! first that fails ends the run: nothing more is written, what was written
//! stays, and the call fails with a `StoreError`.

use crate::error::MemoryError;
use vstd::prelude::*;

verus! {

/// The state of a run: how many writes there are, how many the store has
/// taken, and whether one was refused.
#[derive(Debug, Clone, Copy, PartialEq, Eq, Structural)]
pub struct WriteRun {
    pub total: usize,
    pub done: usize,
    pub failed: bool,
}

impl WriteRun {
    /// The run of `total` writes at its start: none sent yet.
    pub open spec fn fresh(total: usize) -> WriteRun {
        WriteRun { total, done: 0, failed: false }
    }

    /// No more writes are counted as taken than there are.
    pub open spec fn wf(self) -> bool {
        self.done <= self.total
    }

    /// A write is still to be sent.
    pub open spec fn pending(self) -> bool {
        !self.failed && self.done < self.total
    }

    /// The state after the store has answered the write that was sent: taken
    /// (`ok`) or refused. Where no write was pending the state stays.
    pub open spec fn step(self, ok: bool) -> WriteRun {
        if !self.pending() {
            self
        } else if ok {
            WriteRun { total: self.total, done: (self.done + 1) as usize, failed: false }
        } else {
            WriteRun { total: self.total, done: self.done, failed: true }
        }
    }

    /// The state after the store's answers `answers`, first answer first.
    pub open spec fn after(self, answers: Seq<bool>) -> WriteRun
        decreases answers.len(),
    {
        if answers.len() == 0 {
            self
        } else {
            self.after(answers.drop_last()).step(answers.last())
        }
    }

    /// How the run ends, once no write is pending.
    pub open spec fn result(self) -> Result<(), MemoryError> {
        if self.failed {
            Err(MemoryError::StoreError)
        } else {
            Ok(())
        }
    }

    /// A run of `total` writes, none sent yet.
    pub fn new(total: usize) -> (run: WriteRun)
        ensures
            run == WriteRun::fresh(total),
            run.wf(),
    {
        WriteRun { total, done: 0, failed: false }
    }

    /// The position of the write to send next; `None` once the run is over.
    pub fn next(&self) -> (at: Option<usize>)
        ensures
            at == if self.pending() {
                Some(self.done)
            } else {
                None::<usize>
            },
    {
        if !self.failed && self.done < self.total {
            Some(self.done)
        } else {
            None
        }
    }

    /// Takes note of the store's answer to the write that was sent.
    pub fn record(&mut self, ok: bool)
        ensures
            *final(self) == old(self).step(ok),
            old(self).wf() ==> final(self).wf(),
    {
        if !self.failed && self.done < self.total {
            if ok {
                self.done = self.done + 1;
            } else {
                self.failed = true;
            }
        }
    }

    /// How the run ended; `None` while a write is pending.
    pub fn outcome(&self) -> (end: Option<Result<(), MemoryError>>)
        ensures
            end == if self.pending() {
                None::<Result<(), MemoryError>>
            } else {
                Some(self.result())
            },
    {
        if !self.failed && self.done < self.total {
            None
        } else if self.failed {
            Some(Err(MemoryError::StoreError))
        } else {
            Some(Ok(()))
        }
    }
}

/// While every write is taken, the run counts them and goes on; it ends well
/// exactly when all are taken.
pub proof fn all_taken_ends_well(total: usize, answers: Seq<bool>)
    requires
        answers.len() <= total,
        forall|i: int| 0 <= i < answers.len() ==> answers[i],
    ensures
        WriteRun::fresh(total).after(answers) == (WriteRun {
            total,
            done: answers.len() as usize,
            failed: false,
        }),
        answers.len() == total ==> !WriteRun::fresh(total).after(answers).pending()
            && WriteRun::fresh(total).after(answers).result() == Ok::<(), MemoryError>(()),
        answers.len() < total ==> WriteRun::fresh(total).after(answers).pending(),
    decreases answers.len(),
{
    if answers.len() > 0 {
        all_taken_ends_well(total, answers.drop_last());
    }
}

/// Once a write is refused the run is over: the writes taken before it stay
/// counted, whatever is answered later changes nothing, and the run ends
/// with a `StoreError`.
pub proof fn first_refusal_ends_run(total: usize, answers: Seq<bool>, at: int)
    requires
        0 <= at < answers.len(),
        at < total,
        !answers[at],
        forall|i: int| 0 <= i < at ==> answers[i],
    ensures
        WriteRun::fresh(total).after(answers) == (WriteRun {
            total,
            done: at as usize,
            failed: true,
        }),
        !WriteRun::fresh(total).after(answers).pending(),
        WriteRun::fresh(total).after(answers).result() == Err::<(), MemoryError>(
            MemoryError::StoreError,
        ),
    decreases answers.len(),
{
    let shorter = answers.drop_last();
    if answers.len() == at + 1 {
        all_taken_ends_well(total, shorter);
    } else {
        first_refusal_ends_run(total, shorter, at);
    }
}

} // verus!
