use vstd::prelude::*;
use crate::facts::RelationRow;

verus! {

/// Worker threads the evaluation session is created with: this driver runs
/// one batch per input, so the count is fixed.
pub const WORKER_COUNT: usize = 6;

/// A failure at the evaluator boundary. The first three are fatal for the
/// run; a stop failure is reported but does not invalidate results already
/// read.
#[derive(Clone, Copy, PartialEq, Eq, Structural, Debug)]
pub enum EvalError {
    /// The evaluation session could not be acquired or its transaction not
    /// opened.
    EngineInitError,
    /// The bulk insertion was not accepted; the transaction is aborted with
    /// no partial effects visible.
    UpdateError,
    /// The transaction could not be committed; no change-set was produced.
    CommitError,
    /// The session did not shut down cleanly.
    StopError,
}

/// One call the driver asks its caller to make into the evaluation engine.
#[derive(Clone, Copy, PartialEq, Eq, Structural, Debug)]
pub enum EngineAction {
    /// Acquire a session with the given worker count and tracing flag, and
    /// begin its one transaction.
    OpenSession { workers: usize, tracing: bool },
    /// Submit every staged row as one bulk update of insertions; this driver
    /// stages no retractions, each run starts from an empty relational
    /// state.
    ApplyInsertions,
    /// Commit the transaction and read back the change-set.
    CommitTransaction,
    /// Tear the session down; no further transactions are accepted.
    StopSession,
}

/// The outcome of one engine call, reported back to the orchestrator.
#[derive(Clone, Copy, PartialEq, Eq, Structural, Debug)]
pub enum EngineEvent {
    SessionOpened { ok: bool },
    UpdatesApplied { ok: bool },
    CommitFinished { ok: bool },
    SessionStopped { ok: bool },
}

/// Where one evaluation run stands.
#[derive(Clone, Copy, PartialEq, Eq, Structural, Debug)]
pub enum Phase {
    /// No session yet.
    Idle,
    /// A session is held and its transaction is open; `applied` records
    /// whether the staged rows have been submitted.
    TransactionOpen { applied: bool },
    /// The transaction is committed and the change-set has been read.
    Committed,
    /// The session is torn down; the run is over.
    Stopped,
    /// A fatal engine failure ended the run.
    Failed { error: EvalError },
}

/// The event a phase is waiting for; every other event would be a protocol
/// breach by the caller.
pub open spec fn awaits(phase: Phase, event: EngineEvent) -> bool {
    match (phase, event) {
        (Phase::Idle, EngineEvent::SessionOpened { .. }) => true,
        (Phase::TransactionOpen { applied: false }, EngineEvent::UpdatesApplied { .. }) => true,
        (Phase::TransactionOpen { applied: true }, EngineEvent::CommitFinished { .. }) => true,
        (Phase::Committed, EngineEvent::SessionStopped { .. }) => true,
        _ => false,
    }
}

/// The transition table of one run: next phase and reported result for a
/// phase and the event it awaited.
pub open spec fn spec_step(phase: Phase, event: EngineEvent) -> (Phase, Result<(), EvalError>) {
    match (phase, event) {
        (Phase::Idle, EngineEvent::SessionOpened { ok }) => if ok {
            (Phase::TransactionOpen { applied: false }, Ok(()))
        } else {
            (Phase::Failed { error: EvalError::EngineInitError }, Err(EvalError::EngineInitError))
        },
        (Phase::TransactionOpen { applied: false }, EngineEvent::UpdatesApplied { ok }) => if ok {
            (Phase::TransactionOpen { applied: true }, Ok(()))
        } else {
            (Phase::Failed { error: EvalError::UpdateError }, Err(EvalError::UpdateError))
        },
        (Phase::TransactionOpen { applied: true }, EngineEvent::CommitFinished { ok }) => if ok {
            (Phase::Committed, Ok(()))
        } else {
            (Phase::Failed { error: EvalError::CommitError }, Err(EvalError::CommitError))
        },
        (Phase::Committed, EngineEvent::SessionStopped { ok }) => if ok {
            (Phase::Stopped, Ok(()))
        } else {
            (Phase::Stopped, Err(EvalError::StopError))
        },
        _ => (phase, Ok(())),
    }
}

/// The engine call each phase asks for next; `None` once the run is over.
pub open spec fn spec_next_action(phase: Phase) -> Option<EngineAction> {
    match phase {
        Phase::Idle => Some(
            EngineAction::OpenSession { workers: WORKER_COUNT, tracing: false },
        ),
        Phase::TransactionOpen { applied: false } => Some(EngineAction::ApplyInsertions),
        Phase::TransactionOpen { applied: true } => Some(EngineAction::CommitTransaction),
        Phase::Committed => Some(EngineAction::StopSession),
        Phase::Stopped => None,
        Phase::Failed { .. } => None,
    }
}

/// Owns one evaluation run: the staged rows and the phase the run is in.
/// The caller repeatedly asks for the next engine action, performs it, and
/// reports the outcome; the orchestrator decides what follows. Exactly one
/// transaction is begun and committed per run, and the session is never
/// reused.
pub struct Orchestrator {
    /// The rows to submit, all as insertions, in translation order.
    pub rows: Vec<RelationRow>,
    /// Where the run stands.
    pub phase: Phase,
}

impl Orchestrator {
    /// Stage the translated rows for one fresh run.
    pub fn new(rows: Vec<RelationRow>) -> (o: Orchestrator)
        ensures
            o.phase == Phase::Idle,
            o.rows@ == rows@,
    {
        Orchestrator { rows, phase: Phase::Idle }
    }

    /// The run accepts no further events.
    pub open spec fn done(self) -> bool {
        self.phase is Stopped || self.phase is Failed
    }

    /// The rows staged for submission, in translation order, every one an
    /// insertion.
    pub fn staged_rows(&self) -> (r: &Vec<RelationRow>)
        ensures
            r@ == self.rows@,
    {
        &self.rows
    }

    /// The engine call to make next, or `None` once the run is over.
    pub fn next_action(&self) -> (a: Option<EngineAction>)
        ensures
            a == spec_next_action(self.phase),
    {
        match self.phase {
            Phase::Idle => Some(
                EngineAction::OpenSession { workers: WORKER_COUNT, tracing: false },
            ),
            Phase::TransactionOpen { applied } => if !applied {
                Some(EngineAction::ApplyInsertions)
            } else {
                Some(EngineAction::CommitTransaction)
            },
            Phase::Committed => Some(EngineAction::StopSession),
            Phase::Stopped => None,
            Phase::Failed { .. } => None,
        }
    }

    /// Advance the run by the outcome of the engine call the current phase
    /// awaited. A failure outcome moves the run to its error — fatal for
    /// everything but the final stop, whose failure is reported while the
    /// run still counts as stopped.
    pub fn step(&mut self, event: EngineEvent) -> (r: Result<(), EvalError>)
        requires
            awaits(old(self).phase, event),
        ensures
            final(self).rows@ == old(self).rows@,
            final(self).phase == spec_step(old(self).phase, event).0,
            r == spec_step(old(self).phase, event).1,
    {
        match event {
            EngineEvent::SessionOpened { ok } => {
                if ok {
                    self.phase = Phase::TransactionOpen { applied: false };
                    Ok(())
                } else {
                    self.phase = Phase::Failed { error: EvalError::EngineInitError };
                    Err(EvalError::EngineInitError)
                }
            },
            EngineEvent::UpdatesApplied { ok } => {
                if ok {
                    self.phase = Phase::TransactionOpen { applied: true };
                    Ok(())
                } else {
                    self.phase = Phase::Failed { error: EvalError::UpdateError };
                    Err(EvalError::UpdateError)
                }
            },
            EngineEvent::CommitFinished { ok } => {
                if ok {
                    self.phase = Phase::Committed;
                    Ok(())
                } else {
                    self.phase = Phase::Failed { error: EvalError::CommitError };
                    Err(EvalError::CommitError)
                }
            },
            EngineEvent::SessionStopped { ok } => {
                self.phase = Phase::Stopped;
                if ok {
                    Ok(())
                } else {
                    Err(EvalError::StopError)
                }
            },
        }
    }
}

/// Law: a run whose engine calls all succeed walks the phases
/// `Idle`, `TransactionOpen` (before and after the bulk insertion),
/// `Committed`, `Stopped`, in that order, reporting no error at any step.
pub proof fn lemma_successful_run_reaches_stopped()
    ensures
        ({
            let s1 = spec_step(Phase::Idle, EngineEvent::SessionOpened { ok: true });
            let s2 = spec_step(s1.0, EngineEvent::UpdatesApplied { ok: true });
            let s3 = spec_step(s2.0, EngineEvent::CommitFinished { ok: true });
            let s4 = spec_step(s3.0, EngineEvent::SessionStopped { ok: true });
            &&& s1.0 == (Phase::TransactionOpen { applied: false }) && s1.1 is Ok
            &&& s2.0 == (Phase::TransactionOpen { applied: true }) && s2.1 is Ok
            &&& s3.0 == Phase::Committed && s3.1 is Ok
            &&& s4.0 == Phase::Stopped && s4.1 is Ok
        }),
{
}

} // verus!
