//! The steps of a registration, for a store whose database is reached by
//! statements that can fail one by one.
//!
//! The store performs an action, reports how it went, and is told the next
//! action, until it is told what to return.

use vstd::prelude::*;
use crate::error::StoreError;

verus! {

/// Where a registration stands.
#[derive(Clone, Copy, Debug, PartialEq, Eq, Structural)]
pub enum AddState {
    /// The pre-insert check is asked.
    Checking,
    /// A transaction is being opened.
    Opening,
    /// The job row is being upserted, in the transaction.
    Writing,
    /// The post-insert callback runs, in the transaction.
    Linking,
    /// The transaction is being committed.
    Committing,
    /// The transaction is being rolled back after a failure.
    Undoing,
    /// The registration is over.
    Finished,
}

/// What the store does next.
#[derive(Clone, Copy, Debug, PartialEq, Eq, Structural)]
pub enum AddAction {
    CheckVeto,
    Begin,
    UpsertJob,
    AfterAdd,
    Commit,
    Rollback,
    /// Return success to the caller.
    ReturnOk,
    /// Return this error to the caller.
    ReturnErr(StoreError),
}

impl AddAction {
    /// Whether the action ends the registration.
    pub open spec fn is_return(self) -> bool {
        self is ReturnOk || self is ReturnErr
    }

    /// What the caller gets where the action ends the registration; a
    /// registration that is given up at another action fails with `CantAdd`.
    pub open spec fn spec_result(self) -> Result<(), StoreError> {
        match self {
            AddAction::ReturnOk => Ok(()),
            AddAction::ReturnErr(e) => Err(e),
            _ => Err(StoreError::CantAdd),
        }
    }

    /// What the caller gets where the action ends the registration.
    pub fn result(self) -> (r: Result<(), StoreError>)
        ensures
            r == self.spec_result(),
    {
        match self {
            AddAction::ReturnOk => Ok(()),
            AddAction::ReturnErr(e) => Err(e),
            _ => Err(StoreError::CantAdd),
        }
    }
}

/// How the last action went.
#[derive(Clone, Copy, Debug, PartialEq, Eq, Structural)]
pub enum AddEvent {
    /// The pre-insert check answered: `true` is a veto.
    Vetoed(bool),
    /// The action succeeded.
    Succeeded,
    /// The action failed.
    Failed,
}

/// The first step: a job without decoded metadata is refused at once.
pub open spec fn spec_start(has_metadata: bool) -> (AddState, AddAction) {
    if has_metadata {
        (AddState::Checking, AddAction::CheckVeto)
    } else {
        (AddState::Finished, AddAction::ReturnErr(StoreError::CantAdd))
    }
}

/// The step after an action.
///
/// A veto ends the registration in success. A failure before the
/// transaction is open ends it in `CantAdd`; a failure in the transaction
/// is followed by a rollback, and only then by `CantAdd`. Success is
/// returned only after the commit succeeded. An event that does not
/// belong to the state ends the registration in `CantAdd`.
pub open spec fn spec_step(state: AddState, event: AddEvent) -> (AddState, AddAction) {
    match (state, event) {
        (AddState::Checking, AddEvent::Vetoed(true)) => (
            AddState::Finished,
            AddAction::ReturnOk,
        ),
        (AddState::Checking, AddEvent::Vetoed(false)) => (AddState::Opening, AddAction::Begin),
        (AddState::Opening, AddEvent::Succeeded) => (AddState::Writing, AddAction::UpsertJob),
        (AddState::Writing, AddEvent::Succeeded) => (AddState::Linking, AddAction::AfterAdd),
        (AddState::Writing, AddEvent::Failed) => (AddState::Undoing, AddAction::Rollback),
        (AddState::Linking, AddEvent::Succeeded) => (AddState::Committing, AddAction::Commit),
        (AddState::Linking, AddEvent::Failed) => (AddState::Undoing, AddAction::Rollback),
        (AddState::Committing, AddEvent::Succeeded) => (
            AddState::Finished,
            AddAction::ReturnOk,
        ),
        _ => (AddState::Finished, AddAction::ReturnErr(StoreError::CantAdd)),
    }
}

/// The first step of a registration.
pub fn start(has_metadata: bool) -> (r: (AddState, AddAction))
    ensures
        r == spec_start(has_metadata),
{
    if has_metadata {
        (AddState::Checking, AddAction::CheckVeto)
    } else {
        (AddState::Finished, AddAction::ReturnErr(StoreError::CantAdd))
    }
}

/// The step after an action.
pub fn step(state: AddState, event: AddEvent) -> (r: (AddState, AddAction))
    ensures
        r == spec_step(state, event),
{
    match (state, event) {
        (AddState::Checking, AddEvent::Vetoed(true)) => (
            AddState::Finished,
            AddAction::ReturnOk,
        ),
        (AddState::Checking, AddEvent::Vetoed(false)) => (AddState::Opening, AddAction::Begin),
        (AddState::Opening, AddEvent::Succeeded) => (AddState::Writing, AddAction::UpsertJob),
        (AddState::Writing, AddEvent::Succeeded) => (AddState::Linking, AddAction::AfterAdd),
        (AddState::Writing, AddEvent::Failed) => (AddState::Undoing, AddAction::Rollback),
        (AddState::Linking, AddEvent::Succeeded) => (AddState::Committing, AddAction::Commit),
        (AddState::Linking, AddEvent::Failed) => (AddState::Undoing, AddAction::Rollback),
        (AddState::Committing, AddEvent::Succeeded) => (
            AddState::Finished,
            AddAction::ReturnOk,
        ),
        _ => (AddState::Finished, AddAction::ReturnErr(StoreError::CantAdd)),
    }
}

/// How far a state is from the end: the number of steps that a
/// registration can still take.
pub open spec fn steps_left(state: AddState) -> nat {
    match state {
        AddState::Checking => 5,
        AddState::Opening => 4,
        AddState::Writing => 3,
        AddState::Linking => 2,
        AddState::Committing => 1,
        AddState::Undoing => 1,
        AddState::Finished => 0,
    }
}

/// Every registration ends: each step brings the end nearer, and the
/// registration is over exactly when a result is returned.
pub proof fn lemma_step_ends(state: AddState, event: AddEvent)
    requires
        state != AddState::Finished,
    ensures
        steps_left(spec_step(state, event).0) < steps_left(state),
        spec_step(state, event).0 == AddState::Finished <==> spec_step(state, event).1.is_return(),
{
}

/// Success is returned only on a veto or after the commit succeeded, and an
/// error is always `CantAdd`.
pub proof fn lemma_step_returns(state: AddState, event: AddEvent)
    ensures
        spec_step(state, event).1 == AddAction::ReturnOk ==> (state == AddState::Checking
            && event == AddEvent::Vetoed(true)) || (state == AddState::Committing && event
            == AddEvent::Succeeded),
        spec_step(state, event).1 matches AddAction::ReturnErr(e) ==> e == StoreError::CantAdd,
{
}

/// A failure inside the open transaction is answered by a rollback, and the
/// rollback by the error; nothing is committed on the way.
pub proof fn lemma_failure_rolls_back(state: AddState, undone: AddEvent)
    requires
        state == AddState::Writing || state == AddState::Linking,
    ensures
        spec_step(state, AddEvent::Failed) == (AddState::Undoing, AddAction::Rollback),
        spec_step(AddState::Undoing, undone) == (
            AddState::Finished,
            AddAction::ReturnErr(StoreError::CantAdd),
        ),
{
}

} // verus!
