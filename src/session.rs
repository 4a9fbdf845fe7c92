use vstd::prelude::*;
use vstd::string::*;

use crate::error::MovieramaError;
use crate::models::VoteType;
use crate::votes::{action_for, reconcile_action, VoteAction};

verus! {

/// Where a vote request against a shared store stands.
#[derive(Debug, Clone, Copy, PartialEq, Eq, Structural)]
pub enum VotePhase {
    /// Waiting to learn whether the movie exists.
    AwaitMovie,
    /// Waiting for the user's current vote; `retried` once a conflicting
    /// insert has sent the request back here.
    AwaitVote { retried: bool },
    /// Waiting for the outcome of `action`.
    AwaitWrite { action: VoteAction, retried: bool },
    /// Nothing more to do.
    Finished,
}

/// What the store reported for the last command.
#[derive(Debug, Clone, Copy, PartialEq, Eq, Structural)]
pub enum VoteEvent {
    /// Whether the movie exists.
    MovieExists(bool),
    /// The user's current vote on the movie.
    CurrentVote(Option<VoteType>),
    /// The write went through.
    Written,
    /// The write broke the one-vote-per-user-and-movie constraint:
    /// another request voted first.
    Conflict,
}

/// What the caller must do next.
#[derive(Debug, PartialEq, Eq)]
pub enum VoteCommand {
    /// Look the movie up.
    ReadMovie,
    /// Read the user's current vote on the movie.
    ReadVote,
    /// Apply this change to the vote relation.
    Write(VoteAction),
    /// Stop: on `Ok`, read the movie back with its fresh counts.
    Finish(Result<(), MovieramaError>),
}

/// The phase that follows `event` in `phase`. A missing movie ends the
/// request. The current vote decides the write, as `action_for` says. An
/// insert that conflicts with a concurrent vote goes back to a fresh read,
/// once. Anything else ends the request.
pub open spec fn next_phase(phase: VotePhase, desired: VoteType, event: VoteEvent) -> VotePhase {
    match (phase, event) {
        (VotePhase::AwaitMovie, VoteEvent::MovieExists(true)) => VotePhase::AwaitVote {
            retried: false,
        },
        (VotePhase::AwaitVote { retried }, VoteEvent::CurrentVote(c)) => VotePhase::AwaitWrite {
            action: action_for(c, desired),
            retried,
        },
        (
            VotePhase::AwaitWrite { action: VoteAction::Insert(_), retried: false },
            VoteEvent::Conflict,
        ) => VotePhase::AwaitVote { retried: true },
        _ => VotePhase::Finished,
    }
}

/// The command that goes with that step: a missing movie is not found, a
/// write that went through finishes well, a conflict that is not retried
/// is a store error, and an event that does not fit the phase is
/// unexpected.
pub open spec fn command_fits(
    phase: VotePhase,
    desired: VoteType,
    event: VoteEvent,
    cmd: VoteCommand,
) -> bool {
    match next_phase(phase, desired, event) {
        VotePhase::AwaitMovie => false,
        VotePhase::AwaitVote { retried: _ } => cmd == VoteCommand::ReadVote,
        VotePhase::AwaitWrite { action, retried: _ } => cmd == VoteCommand::Write(action),
        VotePhase::Finished => match (phase, event) {
            (VotePhase::AwaitMovie, VoteEvent::MovieExists(false)) => cmd == VoteCommand::Finish(
                Err(MovieramaError::NotFound),
            ),
            (VotePhase::AwaitWrite { action: _, retried: _ }, VoteEvent::Written) => cmd
                == VoteCommand::Finish(Ok(())),
            (VotePhase::AwaitWrite { action: _, retried: _ }, VoteEvent::Conflict) => cmd matches VoteCommand::Finish(
                Err(MovieramaError::DatabaseError(_)),
            ),
            _ => cmd matches VoteCommand::Finish(Err(MovieramaError::UnexpectedError(_))),
        },
    }
}

/// The first phase and command of a vote request: look the movie up.
pub fn vote_start() -> (r: (VotePhase, VoteCommand))
    ensures
        r == (VotePhase::AwaitMovie, VoteCommand::ReadMovie),
{
    (VotePhase::AwaitMovie, VoteCommand::ReadMovie)
}

/// One step of a vote request of kind `desired`: from the phase and what
/// the store reported, the next phase and what to do.
pub fn vote_step(phase: VotePhase, desired: VoteType, event: VoteEvent) -> (r: (
    VotePhase,
    VoteCommand,
))
    ensures
        r.0 == next_phase(phase, desired, event),
        command_fits(phase, desired, event, r.1),
{
    match (phase, event) {
        (VotePhase::AwaitMovie, VoteEvent::MovieExists(exists)) => {
            if exists {
                (VotePhase::AwaitVote { retried: false }, VoteCommand::ReadVote)
            } else {
                (VotePhase::Finished, VoteCommand::Finish(Err(MovieramaError::NotFound)))
            }
        },
        (VotePhase::AwaitVote { retried }, VoteEvent::CurrentVote(c)) => {
            let action = reconcile_action(c, desired);
            (VotePhase::AwaitWrite { action, retried }, VoteCommand::Write(action))
        },
        (VotePhase::AwaitWrite { action: _, retried: _ }, VoteEvent::Written) => (
            VotePhase::Finished,
            VoteCommand::Finish(Ok(())),
        ),
        (VotePhase::AwaitWrite { action, retried }, VoteEvent::Conflict) => {
            match action {
                VoteAction::Insert(_) => {
                    if !retried {
                        return (VotePhase::AwaitVote { retried: true }, VoteCommand::ReadVote);
                    }
                },
                _ => {},
            }
            (
                VotePhase::Finished,
                VoteCommand::Finish(
                    Err(
                        MovieramaError::DatabaseError(
                            String::from_str("vote conflicts with a concurrent vote"),
                        ),
                    ),
                ),
            )
        },
        _ => (
            VotePhase::Finished,
            VoteCommand::Finish(
                Err(MovieramaError::UnexpectedError(String::from_str("vote step out of order"))),
            ),
        ),
    }
}

} // verus!
