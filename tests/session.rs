use movierama::{vote_start, vote_step, MovieramaError, VoteAction, VoteCommand, VoteEvent, VotePhase, VoteType};

#[test]
fn missing_movie_is_not_found() {
    let (phase, cmd) = vote_start();
    assert_eq!(cmd, VoteCommand::ReadMovie);
    let (phase, cmd) = vote_step(phase, VoteType::Like, VoteEvent::MovieExists(false));
    assert_eq!(phase, VotePhase::Finished);
    assert_eq!(cmd, VoteCommand::Finish(Err(MovieramaError::NotFound)));
}

#[test]
fn first_vote_inserts() {
    let (phase, _) = vote_start();
    let (phase, cmd) = vote_step(phase, VoteType::Hate, VoteEvent::MovieExists(true));
    assert_eq!(cmd, VoteCommand::ReadVote);
    let (phase, cmd) = vote_step(phase, VoteType::Hate, VoteEvent::CurrentVote(None));
    assert_eq!(cmd, VoteCommand::Write(VoteAction::Insert(VoteType::Hate)));
    let (phase, cmd) = vote_step(phase, VoteType::Hate, VoteEvent::Written);
    assert_eq!(phase, VotePhase::Finished);
    assert_eq!(cmd, VoteCommand::Finish(Ok(())));
}

#[test]
fn conflicting_insert_is_retried_once() {
    let desired = VoteType::Like;
    let phase = VotePhase::AwaitVote { retried: false };
    let (phase, _) = vote_step(phase, desired, VoteEvent::CurrentVote(None));
    let (phase, cmd) = vote_step(phase, desired, VoteEvent::Conflict);
    assert_eq!(phase, VotePhase::AwaitVote { retried: true });
    assert_eq!(cmd, VoteCommand::ReadVote);
    // the concurrent vote was a like: ours retracts it
    let (phase, cmd) = vote_step(phase, desired, VoteEvent::CurrentVote(Some(VoteType::Like)));
    assert_eq!(cmd, VoteCommand::Write(VoteAction::Delete));
    let (_, cmd) = vote_step(phase, desired, VoteEvent::Written);
    assert_eq!(cmd, VoteCommand::Finish(Ok(())));
}

#[test]
fn second_conflict_is_a_store_error() {
    let phase = VotePhase::AwaitWrite { action: VoteAction::Insert(VoteType::Like), retried: true };
    let (phase, cmd) = vote_step(phase, VoteType::Like, VoteEvent::Conflict);
    assert_eq!(phase, VotePhase::Finished);
    assert!(matches!(cmd, VoteCommand::Finish(Err(MovieramaError::DatabaseError(_)))));
}

#[test]
fn event_out_of_order_is_unexpected() {
    let (phase, cmd) = vote_step(VotePhase::AwaitMovie, VoteType::Like, VoteEvent::Written);
    assert_eq!(phase, VotePhase::Finished);
    assert!(matches!(cmd, VoteCommand::Finish(Err(MovieramaError::UnexpectedError(_)))));
}
