use movierama::{
    reconcile_action, vote_type_param, Ballot, MovieramaError, VoteAction, VoteRow, VoteTable,
    VoteType,
};

fn table() -> VoteTable {
    VoteTable::new()
}

#[test]
fn inception_scenario() {
    // user A (id 1) owns movie 7; user B (id 2) votes on it
    let mut votes = table();
    let r = votes.vote_movie(true, 2, 7, VoteType::Like).unwrap();
    assert_eq!((r.like_count, r.hate_count), (1, 0));
    let r = votes.vote_movie(true, 2, 7, VoteType::Hate).unwrap();
    assert_eq!((r.like_count, r.hate_count), (0, 1));
    let r = votes.vote_movie(true, 2, 7, VoteType::Hate).unwrap();
    assert_eq!((r.like_count, r.hate_count), (0, 0));
    assert_eq!(votes.get_vote(2, 7), None);
}

#[test]
fn test_insert_vote() {
    let mut votes = table();
    let result = votes.vote_movie(true, 1, 1, VoteType::Like).unwrap();
    assert_eq!(result.like_count, 1);
    assert_eq!(result.hate_count, 0);
}

#[test]
fn test_reverse_vote() {
    let mut votes = table();
    votes.vote_movie(true, 1, 2, VoteType::Like).unwrap();
    let updated = votes.vote_movie(true, 1, 2, VoteType::Hate).unwrap();
    assert_eq!(updated.like_count, 0);
    assert_eq!(updated.hate_count, 1);
}

#[test]
fn test_retract_vote() {
    let mut votes = table();
    votes.vote_movie(true, 1, 3, VoteType::Like).unwrap();
    let updated = votes.vote_movie(true, 1, 3, VoteType::Like).unwrap();
    assert_eq!(updated.like_count, 0);
    assert_eq!(updated.hate_count, 0);
    let v = votes.get_vote(1, 3);
    assert!(v.is_none());
}

#[test]
fn test_get_vote() {
    let mut votes = table();
    votes.insert_vote(1, 4, VoteType::Hate).unwrap();
    let vote = votes.get_vote(1, 4);
    assert_eq!(vote, Some(VoteType::Hate));
}

#[test]
fn test_get_user_votes_for_movies() {
    let mut votes = table();
    let (uid, m1, m2, m3) = (1, 10, 11, 12);
    votes.insert_vote(uid, m1, VoteType::Like).unwrap();
    votes.insert_vote(uid, m3, VoteType::Hate).unwrap();
    let results = votes.get_user_votes_for_movies(uid, &[m1, m2, m3]);
    assert_eq!(results.get(&m1), Some(&VoteType::Like));
    assert_eq!(results.get(&m2), None);
    assert_eq!(results.get(&m3), Some(&VoteType::Hate));
}

#[test]
fn test_vote_movie_not_found() {
    let mut votes = table();
    let result = votes.vote_movie(false, 1, 99999, VoteType::Like);
    assert!(matches!(result, Err(MovieramaError::NotFound)));
}

#[test]
fn test_movie_counts_with_votes() {
    let mut votes = table();
    votes.insert_vote(2, 5, VoteType::Like).unwrap();
    votes.insert_vote(3, 5, VoteType::Like).unwrap();
    let result = votes.counts(5);
    assert_eq!(result.like_count, 2);
    assert_eq!(result.hate_count, 0);
}

#[test]
fn vote_on_missing_movie_adds_no_row() {
    let mut votes = table();
    votes.insert_vote(4, 8, VoteType::Hate).unwrap();
    let result = votes.vote_movie(false, 1, 999999, VoteType::Like);
    assert_eq!(result, Err(MovieramaError::NotFound));
    assert_eq!(votes.rows().len(), 1);
    assert_eq!(votes.get_vote(1, 999999), None);
}

#[test]
fn liking_twice_restores_counts() {
    let mut votes = table();
    votes.insert_vote(5, 1, VoteType::Like).unwrap();
    votes.insert_vote(6, 1, VoteType::Hate).unwrap();
    let before = votes.counts(1);
    let first = votes.vote_movie(true, 7, 1, VoteType::Like).unwrap();
    assert_eq!(first.like_count, before.like_count + 1);
    let second = votes.vote_movie(true, 7, 1, VoteType::Like).unwrap();
    assert_eq!(second, before);
    assert_eq!(votes.get_vote(7, 1), None);
    assert_eq!(votes.rows().len(), 2);
}

#[test]
fn like_again_then_hate_moves_one_vote() {
    let mut votes = table();
    votes.insert_vote(1, 3, VoteType::Like).unwrap();
    votes.insert_vote(2, 3, VoteType::Like).unwrap();
    let before = votes.counts(3);
    votes.vote_movie(true, 1, 3, VoteType::Like).unwrap();
    let after = votes.vote_movie(true, 1, 3, VoteType::Hate).unwrap();
    assert_eq!(after.like_count + 1, before.like_count);
    assert_eq!(after.hate_count, before.hate_count + 1);
    let rows_for_pair = votes
        .rows()
        .iter()
        .filter(|b| b.user_id == 1 && b.movie_id == 3)
        .count();
    assert_eq!(rows_for_pair, 1);
}

#[test]
fn like_then_hate_from_no_vote() {
    let mut votes = table();
    let before = votes.counts(9);
    votes.vote_movie(true, 1, 9, VoteType::Like).unwrap();
    let after = votes.vote_movie(true, 1, 9, VoteType::Hate).unwrap();
    assert_eq!(after.like_count, before.like_count);
    assert_eq!(after.hate_count, before.hate_count + 1);
    assert_eq!(votes.get_vote(1, 9), Some(VoteType::Hate));
}

#[test]
fn counts_equal_distinct_voters() {
    let mut votes = table();
    for user in 1..=5 {
        let kind = if user % 2 == 0 { VoteType::Hate } else { VoteType::Like };
        votes.vote_movie(true, user, 4, kind).unwrap();
    }
    votes.vote_movie(true, 3, 4, VoteType::Hate).unwrap();
    votes.vote_movie(true, 2, 4, VoteType::Hate).unwrap();
    votes.vote_movie(true, 1, 5, VoteType::Like).unwrap();
    let c = votes.counts(4);
    assert_eq!((c.like_count, c.hate_count), (2, 2));
    let mut voters: Vec<i32> = votes
        .rows()
        .iter()
        .filter(|b| b.movie_id == 4)
        .map(|b| b.user_id)
        .collect();
    voters.sort();
    voters.dedup();
    assert_eq!(c.like_count + c.hate_count, voters.len() as u64);
}

#[test]
fn second_insert_of_a_pair_conflicts() {
    let mut votes = table();
    votes.insert_vote(1, 1, VoteType::Like).unwrap();
    let again = votes.insert_vote(1, 1, VoteType::Hate);
    assert!(matches!(again, Err(MovieramaError::DatabaseError(_))));
    assert_eq!(votes.get_vote(1, 1), Some(VoteType::Like));
    assert_eq!(votes.rows().len(), 1);
}

#[test]
fn update_and_delete_without_vote_change_nothing() {
    let mut votes = table();
    votes.insert_vote(1, 1, VoteType::Like).unwrap();
    votes.update_vote(2, 1, VoteType::Hate);
    votes.delete_vote(3, 1);
    assert_eq!(votes.rows(), &vec![Ballot { user_id: 1, movie_id: 1, kind: VoteType::Like }]);
    votes.update_vote(1, 1, VoteType::Hate);
    assert_eq!(votes.get_vote(1, 1), Some(VoteType::Hate));
    votes.delete_vote(1, 1);
    assert!(votes.rows().is_empty());
}

#[test]
fn deleting_a_movie_drops_its_votes() {
    let mut votes = table();
    votes.insert_vote(1, 1, VoteType::Like).unwrap();
    votes.insert_vote(2, 2, VoteType::Hate).unwrap();
    votes.insert_vote(3, 1, VoteType::Hate).unwrap();
    votes.delete_movie_votes(1);
    assert_eq!(votes.rows(), &vec![Ballot { user_id: 2, movie_id: 2, kind: VoteType::Hate }]);
    assert_eq!(votes.counts(1).hate_count, 0);
}

#[test]
fn user_votes_for_no_movies_is_empty() {
    let mut votes = table();
    votes.insert_vote(1, 1, VoteType::Like).unwrap();
    assert!(votes.get_user_votes_for_movies(1, &[]).is_empty());
    assert!(votes.get_user_votes_for_movies(2, &[1]).is_empty());
}

#[test]
fn reconcile_table() {
    let (like, hate) = (VoteType::Like, VoteType::Hate);
    assert_eq!(reconcile_action(None, like), VoteAction::Insert(like));
    assert_eq!(reconcile_action(None, hate), VoteAction::Insert(hate));
    assert_eq!(reconcile_action(Some(like), like), VoteAction::Delete);
    assert_eq!(reconcile_action(Some(like), hate), VoteAction::Update(hate));
    assert_eq!(reconcile_action(Some(hate), hate), VoteAction::Delete);
    assert_eq!(reconcile_action(Some(hate), like), VoteAction::Update(like));
}

#[test]
fn vote_type_names() {
    assert_eq!(VoteType::parse("LIKE"), Ok(VoteType::Like));
    assert_eq!("HATE".parse::<VoteType>(), Ok(VoteType::Hate));
    assert!(matches!(VoteType::parse("like"), Err(MovieramaError::BadRequest(_))));
    assert!(matches!(VoteType::parse(""), Err(MovieramaError::BadRequest(_))));
    assert_eq!(VoteType::Like.as_str(), "LIKE");
    assert_eq!(VoteType::Hate.as_str(), "HATE");
}

#[test]
fn vote_type_parameter() {
    assert_eq!(vote_type_param(Some("LIKE")), Ok(VoteType::Like));
    assert!(matches!(vote_type_param(None), Err(MovieramaError::BadRequest(_))));
    assert!(matches!(vote_type_param(Some("MEH")), Err(MovieramaError::BadRequest(_))));
}

#[test]
fn stored_vote_rows() {
    let row = VoteRow { id: 1, user_id: 2, movie_id: 3, vote_type: "HATE".to_string() };
    assert_eq!(row.kind(), Ok(VoteType::Hate));
    let bad = VoteRow { id: 1, user_id: 2, movie_id: 3, vote_type: "SHRUG".to_string() };
    assert!(bad.kind().is_err());
}

#[test]
fn stored_pairs_to_map() {
    let pairs = vec![
        (1, "LIKE".to_string()),
        (2, "bogus".to_string()),
        (3, "HATE".to_string()),
        (1, "HATE".to_string()),
    ];
    let map = movierama::collect_user_votes(&pairs);
    assert_eq!(map.len(), 2);
    assert_eq!(map.get(&1), Some(&VoteType::Hate));
    assert_eq!(map.get(&2), None);
    assert_eq!(map.get(&3), Some(&VoteType::Hate));
}

#[test]
fn error_status_codes() {
    assert_eq!(MovieramaError::NotFound.status_code(), 404);
    assert_eq!(MovieramaError::Unauthorized.status_code(), 401);
    assert_eq!(MovieramaError::BadRequest("x".to_string()).status_code(), 400);
    assert_eq!(MovieramaError::DatabaseError("x".to_string()).status_code(), 500);
    assert_eq!(MovieramaError::UnexpectedError("x".to_string()).status_code(), 500);
}
