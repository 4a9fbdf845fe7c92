use vstd::prelude::*;
use vstd::string::*;

use crate::error::MovieramaError;
use crate::models::{parsed_vote, VoteType};
use std::collections::HashMap;

verus! {

/// The single change that a vote request makes to the vote relation.
#[derive(Debug, Clone, Copy, PartialEq, Eq, Structural)]
pub enum VoteAction {
    /// First vote of the user on the movie: add a row of this kind.
    Insert(VoteType),
    /// The user reverses their vote: the row takes this kind.
    Update(VoteType),
    /// The user votes the same way again: the row goes (a retraction).
    Delete,
}

/// What a vote of kind `desired` does, given the user's current vote on the
/// movie: a first vote is recorded, the same vote again is retracted, the
/// other vote reverses it. Voting is a toggle, not "set my vote".
pub open spec fn action_for(current: Option<VoteType>, desired: VoteType) -> VoteAction {
    match current {
        None => VoteAction::Insert(desired),
        Some(k) => if k == desired {
            VoteAction::Delete
        } else {
            VoteAction::Update(desired)
        },
    }
}

/// Decides the change that a vote of kind `desired` makes, given the
/// user's current vote on the movie.
pub fn reconcile_action(current: Option<VoteType>, desired: VoteType) -> (r: VoteAction)
    ensures
        r == action_for(current, desired),
{
    match current {
        None => VoteAction::Insert(desired),
        Some(k) => if k == desired {
            VoteAction::Delete
        } else {
            VoteAction::Update(desired)
        },
    }
}

/// One row of the vote relation: `user_id`'s vote on `movie_id`.
#[derive(Debug, Clone, Copy, PartialEq, Eq, Structural)]
pub struct Ballot {
    pub user_id: i32,
    pub movie_id: i32,
    pub kind: VoteType,
}

/// A row of the store's vote table, with its kind as stored text.
pub struct VoteRow {
    pub id: i32,
    pub user_id: i32,
    pub movie_id: i32,
    pub vote_type: String,
}

impl VoteRow {
    /// The kind of this vote; stored text that names no kind is a bad request.
    pub fn kind(&self) -> (r: Result<VoteType, MovieramaError>)
        ensures
            parsed_vote(self.vote_type@) matches Some(v) ==> r == Ok::<
                VoteType,
                MovieramaError,
            >(v),
            parsed_vote(self.vote_type@) is None ==> r is Err,
    {
        VoteType::parse(self.vote_type.as_str())
    }
}

/// Like and hate counts of a movie.
#[derive(Debug, Clone, Copy, PartialEq, Eq, Structural)]
pub struct VoteCounts {
    pub like_count: u64,
    pub hate_count: u64,
}

pub open spec fn on_pair(b: Ballot, u: i32, m: i32) -> bool {
    b.user_id == u && b.movie_id == m
}

/// At most one row per (user, movie) pair.
pub open spec fn unique_pairs(rows: Seq<Ballot>) -> bool {
    forall|i: int, j: int|
        0 <= i < rows.len() && 0 <= j < rows.len() && i != j ==> !on_pair(
            #[trigger] rows[i],
            rows[j].user_id,
            rows[j].movie_id,
        ) || !on_pair(#[trigger] rows[j], rows[i].user_id, rows[i].movie_id)
}

pub open spec fn has_pair(rows: Seq<Ballot>, u: i32, m: i32) -> bool {
    exists|i: int| 0 <= i < rows.len() && on_pair(#[trigger] rows[i], u, m)
}

pub open spec fn pair_index(rows: Seq<Ballot>, u: i32, m: i32) -> int {
    choose|i: int| 0 <= i < rows.len() && on_pair(#[trigger] rows[i], u, m)
}

/// The vote of `u` on `m`, if any.
pub open spec fn vote_of(rows: Seq<Ballot>, u: i32, m: i32) -> Option<VoteType> {
    if has_pair(rows, u, m) {
        Some(rows[pair_index(rows, u, m)].kind)
    } else {
        None
    }
}

/// The relation with `u`'s vote on `m` turned to `k`, where there is one.
pub open spec fn set_kind(rows: Seq<Ballot>, u: i32, m: i32, k: VoteType) -> Seq<Ballot> {
    if has_pair(rows, u, m) {
        let i = pair_index(rows, u, m);
        rows.update(i, Ballot { kind: k, ..rows[i] })
    } else {
        rows
    }
}

/// The relation without `u`'s vote on `m`.
pub open spec fn remove_pair(rows: Seq<Ballot>, u: i32, m: i32) -> Seq<Ballot> {
    if has_pair(rows, u, m) {
        rows.remove(pair_index(rows, u, m))
    } else {
        rows
    }
}

/// The relation after `action` on `u`'s vote on `m`.
pub open spec fn apply_action(rows: Seq<Ballot>, u: i32, m: i32, action: VoteAction) -> Seq<
    Ballot,
> {
    match action {
        VoteAction::Insert(k) => rows.push(Ballot { user_id: u, movie_id: m, kind: k }),
        VoteAction::Update(k) => set_kind(rows, u, m, k),
        VoteAction::Delete => remove_pair(rows, u, m),
    }
}

/// The relation after `u` votes `k` on `m`.
pub open spec fn after_vote(rows: Seq<Ballot>, u: i32, m: i32, k: VoteType) -> Seq<Ballot> {
    apply_action(rows, u, m, action_for(vote_of(rows, u, m), k))
}

pub open spec fn counts_as(b: Ballot, m: i32, k: VoteType) -> nat {
    if b.movie_id == m && b.kind == k {
        1
    } else {
        0
    }
}

/// Number of votes of kind `k` on movie `m`: the live aggregate of the rows.
pub open spec fn count_kind(rows: Seq<Ballot>, m: i32, k: VoteType) -> nat
    decreases rows.len(),
{
    if rows.len() == 0 {
        0
    } else {
        count_kind(rows.drop_last(), m, k) + counts_as(rows.last(), m, k)
    }
}

/// The users that have a vote on `m`.
pub open spec fn voters(rows: Seq<Ballot>, m: i32) -> Set<i32> {
    Set::new(|u: i32| exists|i: int| 0 <= i < rows.len() && on_pair(#[trigger] rows[i], u, m))
}

proof fn lemma_count_remove(rows: Seq<Ballot>, i: int, m: i32, k: VoteType)
    requires
        0 <= i < rows.len(),
    ensures
        count_kind(rows.remove(i), m, k) + counts_as(rows[i], m, k) == count_kind(rows, m, k),
    decreases rows.len(),
{
    if i == rows.len() - 1 {
        assert(rows.remove(i) =~= rows.drop_last());
    } else {
        lemma_count_remove(rows.drop_last(), i, m, k);
        assert(rows.remove(i).drop_last() =~= rows.drop_last().remove(i));
        assert(rows.remove(i).last() == rows.last());
    }
}

proof fn lemma_count_update(rows: Seq<Ballot>, i: int, b: Ballot, m: i32, k: VoteType)
    requires
        0 <= i < rows.len(),
    ensures
        count_kind(rows.update(i, b), m, k) + counts_as(rows[i], m, k) == count_kind(rows, m, k)
            + counts_as(b, m, k),
    decreases rows.len(),
{
    if i == rows.len() - 1 {
        assert(rows.update(i, b).drop_last() =~= rows.drop_last());
    } else {
        lemma_count_update(rows.drop_last(), i, b, m, k);
        assert(rows.update(i, b).drop_last() =~= rows.drop_last().update(i, b));
    }
}

proof fn lemma_pair_index_unique(rows: Seq<Ballot>, u: i32, m: i32, i: int)
    requires
        unique_pairs(rows),
        0 <= i < rows.len(),
        on_pair(rows[i], u, m),
    ensures
        has_pair(rows, u, m),
        pair_index(rows, u, m) == i,
{
    assert(has_pair(rows, u, m));
    let j = pair_index(rows, u, m);
    if i != j {
        assert(on_pair(rows[j], u, m));
        assert(!on_pair(rows[i], rows[j].user_id, rows[j].movie_id) || !on_pair(
            rows[j],
            rows[i].user_id,
            rows[i].movie_id,
        ));
    }
}

proof fn lemma_push_unique(rows: Seq<Ballot>, b: Ballot)
    requires
        unique_pairs(rows),
        !has_pair(rows, b.user_id, b.movie_id),
    ensures
        unique_pairs(rows.push(b)),
{
    let r = rows.push(b);
    assert forall|i: int, j: int|
        0 <= i < r.len() && 0 <= j < r.len() && i != j implies !on_pair(
        #[trigger] r[i],
        r[j].user_id,
        r[j].movie_id,
    ) || !on_pair(#[trigger] r[j], r[i].user_id, r[i].movie_id) by {
        if i == rows.len() {
            assert(r[j] == rows[j]);
        } else if j == rows.len() {
            assert(r[i] == rows[i]);
        } else {
            assert(r[i] == rows[i] && r[j] == rows[j]);
        }
    }
}

proof fn lemma_remove_unique(rows: Seq<Ballot>, x: int)
    requires
        unique_pairs(rows),
        0 <= x < rows.len(),
    ensures
        unique_pairs(rows.remove(x)),
{
    let r = rows.remove(x);
    assert forall|i: int, j: int|
        0 <= i < r.len() && 0 <= j < r.len() && i != j implies !on_pair(
        #[trigger] r[i],
        r[j].user_id,
        r[j].movie_id,
    ) || !on_pair(#[trigger] r[j], r[i].user_id, r[i].movie_id) by {
        let i0 = if i < x {
            i
        } else {
            i + 1
        };
        let j0 = if j < x {
            j
        } else {
            j + 1
        };
        assert(r[i] == rows[i0] && r[j] == rows[j0]);
    }
}

proof fn lemma_update_unique(rows: Seq<Ballot>, x: int, k: VoteType)
    requires
        unique_pairs(rows),
        0 <= x < rows.len(),
    ensures
        unique_pairs(rows.update(x, Ballot { kind: k, ..rows[x] })),
{
    let r = rows.update(x, Ballot { kind: k, ..rows[x] });
    assert forall|i: int, j: int|
        0 <= i < r.len() && 0 <= j < r.len() && i != j implies !on_pair(
        #[trigger] r[i],
        r[j].user_id,
        r[j].movie_id,
    ) || !on_pair(#[trigger] r[j], r[i].user_id, r[i].movie_id) by {
        assert(r[i].user_id == rows[i].user_id && r[i].movie_id == rows[i].movie_id);
        assert(r[j].user_id == rows[j].user_id && r[j].movie_id == rows[j].movie_id);
        assert(!on_pair(rows[i], rows[j].user_id, rows[j].movie_id) || !on_pair(
            rows[j],
            rows[i].user_id,
            rows[i].movie_id,
        ));
    }
}

/// The relation without the votes on movie `m`.
pub open spec fn without_movie(rows: Seq<Ballot>, m: i32) -> Seq<Ballot>
    decreases rows.len(),
{
    if rows.len() == 0 {
        rows
    } else {
        let p = without_movie(rows.drop_last(), m);
        if rows.last().movie_id != m {
            p.push(rows.last())
        } else {
            p
        }
    }
}

proof fn lemma_without_movie_pairs(rows: Seq<Ballot>, m: i32, u: i32, n: i32)
    ensures
        has_pair(without_movie(rows, m), u, n) ==> has_pair(rows, u, n),
    decreases rows.len(),
{
    if rows.len() > 0 {
        let p = rows.drop_last();
        lemma_without_movie_pairs(p, m, u, n);
        let w = without_movie(rows, m);
        if has_pair(w, u, n) {
            let j = choose|j: int| 0 <= j < w.len() && on_pair(#[trigger] w[j], u, n);
            if j < without_movie(p, m).len() {
                assert(w[j] == without_movie(p, m)[j]);
                let k = choose|k: int| 0 <= k < p.len() && on_pair(#[trigger] p[k], u, n);
                assert(rows[k] == p[k]);
            } else {
                assert(on_pair(rows[rows.len() - 1], u, n));
            }
        }
    }
}

proof fn lemma_without_movie_unique(rows: Seq<Ballot>, m: i32)
    requires
        unique_pairs(rows),
    ensures
        unique_pairs(without_movie(rows, m)),
    decreases rows.len(),
{
    if rows.len() > 0 {
        let p = rows.drop_last();
        lemma_remove_unique(rows, rows.len() - 1);
        assert(rows.remove(rows.len() - 1) =~= p);
        lemma_without_movie_unique(p, m);
        let b = rows.last();
        if b.movie_id != m {
            lemma_without_movie_pairs(p, m, b.user_id, b.movie_id);
            if has_pair(p, b.user_id, b.movie_id) {
                let k = choose|k: int| 0 <= k < p.len() && on_pair(#[trigger] p[k], b.user_id, b.movie_id);
                assert(rows[k] == p[k]);
                lemma_pair_index_unique(rows, b.user_id, b.movie_id, k);
                lemma_pair_index_unique(rows, b.user_id, b.movie_id, rows.len() - 1);
            }
            lemma_push_unique(without_movie(p, m), b);
        }
    }
}

/// A vote keeps the relation at most one row per (user, movie) pair.
pub proof fn lemma_vote_keeps_unique(rows: Seq<Ballot>, u: i32, m: i32, k: VoteType)
    requires
        unique_pairs(rows),
    ensures
        unique_pairs(after_vote(rows, u, m, k)),
{
    if has_pair(rows, u, m) {
        let i = pair_index(rows, u, m);
        lemma_remove_unique(rows, i);
        lemma_update_unique(rows, i, k);
    } else {
        lemma_push_unique(rows, Ballot { user_id: u, movie_id: m, kind: k });
    }
}

proof fn lemma_remove_drops_pair(rows: Seq<Ballot>, u: i32, m: i32)
    requires
        unique_pairs(rows),
        has_pair(rows, u, m),
    ensures
        !has_pair(remove_pair(rows, u, m), u, m),
{
    let x = pair_index(rows, u, m);
    let r = rows.remove(x);
    if has_pair(r, u, m) {
        let j = choose|j: int| 0 <= j < r.len() && on_pair(#[trigger] r[j], u, m);
        let j0 = if j < x {
            j
        } else {
            j + 1
        };
        assert(r[j] == rows[j0]);
        lemma_pair_index_unique(rows, u, m, j0);
    }
}

proof fn lemma_push_found(rows: Seq<Ballot>, b: Ballot)
    requires
        unique_pairs(rows),
        !has_pair(rows, b.user_id, b.movie_id),
    ensures
        unique_pairs(rows.push(b)),
        vote_of(rows.push(b), b.user_id, b.movie_id) == Some(b.kind),
        pair_index(rows.push(b), b.user_id, b.movie_id) == rows.len(),
{
    lemma_push_unique(rows, b);
    lemma_pair_index_unique(rows.push(b), b.user_id, b.movie_id, rows.len() as int);
}

/// Voting the same way twice, starting from no vote, leaves the relation
/// exactly as it was: no vote of the user on the movie, and every count
/// back at its value before the first vote.
///
/// Stated of the relation as the in-memory model `VoteTable` holds it.
pub proof fn lemma_toggle_restores(rows: Seq<Ballot>, u: i32, m: i32, k: VoteType)
    requires
        unique_pairs(rows),
        vote_of(rows, u, m) is None,
    ensures
        after_vote(after_vote(rows, u, m, k), u, m, k) == rows,
        vote_of(after_vote(after_vote(rows, u, m, k), u, m, k), u, m) is None,
        forall|n: i32, j: VoteType|
            count_kind(after_vote(after_vote(rows, u, m, k), u, m, k), n, j) == count_kind(
                rows,
                n,
                j,
            ),
{
    let b = Ballot { user_id: u, movie_id: m, kind: k };
    let r1 = after_vote(rows, u, m, k);
    assert(r1 == rows.push(b));
    lemma_push_found(rows, b);
    assert(after_vote(r1, u, m, k) == r1.remove(rows.len() as int));
    assert(r1.remove(rows.len() as int) =~= rows);
}

/// A like that is liked again and then hated: one like fewer and one hate
/// more than before the first of the two votes, and the user's single row
/// on the movie is a hate.
///
/// Stated of the relation as the in-memory model `VoteTable` holds it.
pub proof fn lemma_like_then_hate(rows: Seq<Ballot>, u: i32, m: i32)
    requires
        unique_pairs(rows),
        vote_of(rows, u, m) == Some(VoteType::Like),
    ensures
        ({
            let r2 = after_vote(after_vote(rows, u, m, VoteType::Like), u, m, VoteType::Hate);
            &&& count_kind(r2, m, VoteType::Like) + 1 == count_kind(rows, m, VoteType::Like)
            &&& count_kind(r2, m, VoteType::Hate) == count_kind(rows, m, VoteType::Hate) + 1
            &&& vote_of(r2, u, m) == Some(VoteType::Hate)
            &&& unique_pairs(r2)
        }),
{
    let i = pair_index(rows, u, m);
    let r1 = after_vote(rows, u, m, VoteType::Like);
    assert(r1 == rows.remove(i));
    lemma_count_remove(rows, i, m, VoteType::Like);
    lemma_count_remove(rows, i, m, VoteType::Hate);
    lemma_remove_unique(rows, i);
    lemma_remove_drops_pair(rows, u, m);
    let b = Ballot { user_id: u, movie_id: m, kind: VoteType::Hate };
    let r2 = after_vote(r1, u, m, VoteType::Hate);
    assert(r2 == r1.push(b));
    lemma_push_found(r1, b);
    assert(r2.drop_last() =~= r1);
}

/// Reversing a vote moves it from one count to the other: one fewer of the
/// old kind, one more of the new, and the user's row now holds the new kind.
///
/// Stated of the relation as the in-memory model `VoteTable` holds it.
pub proof fn lemma_reversal_moves_one_vote(rows: Seq<Ballot>, u: i32, m: i32, k: VoteType)
    requires
        unique_pairs(rows),
        vote_of(rows, u, m) matches Some(old_kind) && old_kind != k,
    ensures
        ({
            let old_kind = vote_of(rows, u, m)->Some_0;
            let r = after_vote(rows, u, m, k);
            &&& count_kind(r, m, old_kind) + 1 == count_kind(rows, m, old_kind)
            &&& count_kind(r, m, k) == count_kind(rows, m, k) + 1
            &&& vote_of(r, u, m) == Some(k)
            &&& unique_pairs(r)
        }),
{
    let old_kind = vote_of(rows, u, m)->Some_0;
    let i = pair_index(rows, u, m);
    let b = Ballot { kind: k, ..rows[i] };
    let r = after_vote(rows, u, m, k);
    assert(r == rows.update(i, b));
    lemma_count_update(rows, i, b, m, old_kind);
    lemma_count_update(rows, i, b, m, k);
    lemma_update_unique(rows, i, k);
    lemma_pair_index_unique(r, u, m, i);
}

/// The like and hate counts of a movie together are the number of distinct
/// users that have a vote on it: each voter counts once, in one of the two.
///
/// Stated of the relation as the in-memory model `VoteTable` holds it.
pub proof fn lemma_counts_are_voters(rows: Seq<Ballot>, m: i32)
    requires
        unique_pairs(rows),
    ensures
        voters(rows, m).finite(),
        count_kind(rows, m, VoteType::Like) + count_kind(rows, m, VoteType::Hate) == voters(
            rows,
            m,
        ).len(),
    decreases rows.len(),
{
    if rows.len() == 0 {
        assert(voters(rows, m) =~= Set::<i32>::empty());
    } else {
        let p = rows.drop_last();
        let b = rows.last();
        lemma_remove_unique(rows, rows.len() - 1);
        assert(rows.remove(rows.len() - 1) =~= p);
        lemma_counts_are_voters(p, m);
        if b.movie_id == m {
            assert(voters(rows, m) =~= voters(p, m).insert(b.user_id)) by {
                assert forall|x: i32| voters(rows, m).contains(x) implies voters(p, m).insert(
                    b.user_id,
                ).contains(x) by {
                    let i = choose|i: int| 0 <= i < rows.len() && on_pair(#[trigger] rows[i], x, m);
                    if i < p.len() {
                        assert(p[i] == rows[i]);
                    }
                }
                assert forall|x: i32| voters(p, m).contains(x) implies voters(rows, m).contains(
                    x,
                ) by {
                    let i = choose|i: int| 0 <= i < p.len() && on_pair(#[trigger] p[i], x, m);
                    assert(rows[i] == p[i]);
                }
                assert(on_pair(rows[rows.len() - 1], b.user_id, m));
            }
            if voters(p, m).contains(b.user_id) {
                let i = choose|i: int| 0 <= i < p.len() && on_pair(#[trigger] p[i], b.user_id, m);
                assert(rows[i] == p[i]);
                lemma_pair_index_unique(rows, b.user_id, m, i);
                lemma_pair_index_unique(rows, b.user_id, m, rows.len() - 1);
            }
        } else {
            assert(voters(rows, m) =~= voters(p, m)) by {
                assert forall|x: i32| voters(rows, m).contains(x) implies voters(p, m).contains(
                    x,
                ) by {
                    let i = choose|i: int| 0 <= i < rows.len() && on_pair(#[trigger] rows[i], x, m);
                    assert(i < p.len());
                    assert(p[i] == rows[i]);
                }
                assert forall|x: i32| voters(p, m).contains(x) implies voters(rows, m).contains(
                    x,
                ) by {
                    let i = choose|i: int| 0 <= i < p.len() && on_pair(#[trigger] p[i], x, m);
                    assert(rows[i] == p[i]);
                }
            }
        }
    }
}

/// The votes of `u` on the movies among `ids`: an entry only for the
/// movies that `u` has voted on.
pub open spec fn votes_on(rows: Seq<Ballot>, u: i32, ids: Seq<i32>) -> Map<i32, VoteType> {
    Map::new(|m: i32| ids.contains(m) && has_pair(rows, u, m), |m: i32| vote_of(rows, u, m)->Some_0)
}

/// The map that stored `(movie id, vote text)` pairs give: pairs whose
/// text names no vote type are skipped, and a later pair for the same
/// movie wins.
pub open spec fn stored_votes(pairs: Seq<(i32, Seq<char>)>) -> Map<i32, VoteType>
    decreases pairs.len(),
{
    if pairs.len() == 0 {
        Map::empty()
    } else {
        let prev = stored_votes(pairs.drop_last());
        match parsed_vote(pairs.last().1) {
            Some(v) => prev.insert(pairs.last().0, v),
            None => prev,
        }
    }
}

/// Collects the `(movie id, vote text)` pairs that the store returned for
/// one user into a map from movie id to vote type.
pub fn collect_user_votes(pairs: &Vec<(i32, String)>) -> (r: HashMap<i32, VoteType>)
    ensures
        r@ == stored_votes(pairs@.map_values(|p: (i32, String)| (p.0, p.1@))),
{
    broadcast use vstd::std_specs::hash::group_hash_axioms;

    let ghost view = pairs@.map_values(|p: (i32, String)| (p.0, p.1@));
    let mut out: HashMap<i32, VoteType> = HashMap::new();
    let mut i: usize = 0;
    while i < pairs.len()
        invariant
            i <= pairs@.len(),
            view == pairs@.map_values(|p: (i32, String)| (p.0, p.1@)),
            out@ == stored_votes(view.take(i as int)),
        decreases pairs@.len() - i,
    {
        assert(view.take(i + 1).drop_last() =~= view.take(i as int));
        assert(view.take(i + 1).last() == (pairs@[i as int].0, pairs@[i as int].1@));
        let movie_id = pairs[i].0;
        match VoteType::parse(pairs[i].1.as_str()) {
            Ok(v) => {
                out.insert(movie_id, v);
            },
            Err(_) => {},
        }
        i = i + 1;
    }
    assert(view.take(pairs@.len() as int) =~= view);
    out
}

/// The vote relation held in memory: at most one row per (user, movie)
/// pair, with counts always read from the rows themselves.
///
/// This is a model of the store's vote table, not the table itself: a
/// service backed by a relational store runs the same decisions through
/// `vote_step` and issues the writes as queries. The toggle, reversal and
/// count laws of this module are proved of this model.
pub struct VoteTable {
    rows: Vec<Ballot>,
}

impl View for VoteTable {
    type V = Seq<Ballot>;

    closed spec fn view(&self) -> Seq<Ballot> {
        self.rows@
    }
}

impl VoteTable {
    pub open spec fn wf(&self) -> bool {
        unique_pairs(self@)
    }

    /// An empty relation.
    pub fn new() -> (r: VoteTable)
        ensures
            r@ == Seq::<Ballot>::empty(),
            r.wf(),
    {
        VoteTable { rows: Vec::new() }
    }

    /// The rows, in the order they were first recorded.
    pub fn rows(&self) -> (r: &Vec<Ballot>)
        ensures
            r@ == self@,
    {
        &self.rows
    }

    fn find(&self, user_id: i32, movie_id: i32) -> (r: Option<usize>)
        requires
            self.wf(),
        ensures
            r matches Some(i) ==> has_pair(self@, user_id, movie_id) && i == pair_index(
                self@,
                user_id,
                movie_id,
            ),
            r is None ==> !has_pair(self@, user_id, movie_id),
    {
        let mut i: usize = 0;
        while i < self.rows.len()
            invariant
                i <= self@.len(),
                self.rows@ == self@,
                self.wf(),
                forall|j: int| 0 <= j < i ==> !on_pair(#[trigger] self@[j], user_id, movie_id),
            decreases self@.len() - i,
        {
            let b = self.rows[i];
            if b.user_id == user_id && b.movie_id == movie_id {
                proof {
                    lemma_pair_index_unique(self@, user_id, movie_id, i as int);
                }
                return Some(i);
            }
            i = i + 1;
        }
        None
    }

    /// The vote of `user_id` on `movie_id`, if any.
    pub fn get_vote(&self, user_id: i32, movie_id: i32) -> (r: Option<VoteType>)
        requires
            self.wf(),
        ensures
            r == vote_of(self@, user_id, movie_id),
    {
        match self.find(user_id, movie_id) {
            Some(i) => Some(self.rows[i].kind),
            None => None,
        }
    }

    /// Records a first vote. The pair is unique: where the user already has
    /// a vote on the movie nothing changes and the store reports the
    /// conflict.
    pub fn insert_vote(&mut self, user_id: i32, movie_id: i32, kind: VoteType) -> (r: Result<
        (),
        MovieramaError,
    >)
        requires
            old(self).wf(),
        ensures
            final(self).wf(),
            has_pair(old(self)@, user_id, movie_id) ==> (r matches Err(
                MovieramaError::DatabaseError(_),
            )) && final(self)@ == old(self)@,
            !has_pair(old(self)@, user_id, movie_id) ==> r is Ok && final(self)@ == old(
                self,
            )@.push(Ballot { user_id, movie_id, kind }),
    {
        match self.find(user_id, movie_id) {
            Some(_) => Err(
                MovieramaError::DatabaseError(
                    String::from_str("duplicate key value violates unique constraint"),
                ),
            ),
            None => {
                let b = Ballot { user_id, movie_id, kind };
                proof {
                    lemma_push_unique(self@, b);
                }
                self.rows.push(b);
                Ok(())
            },
        }
    }

    /// Turns the user's vote on the movie to `kind`; no vote, no change.
    pub fn update_vote(&mut self, user_id: i32, movie_id: i32, kind: VoteType)
        requires
            old(self).wf(),
        ensures
            final(self).wf(),
            final(self)@ == set_kind(old(self)@, user_id, movie_id, kind),
    {
        match self.find(user_id, movie_id) {
            Some(i) => {
                let b = self.rows[i];
                proof {
                    lemma_update_unique(self@, i as int, kind);
                }
                self.rows.set(i, Ballot { kind, ..b });
            },
            None => {},
        }
    }

    /// Removes the user's vote on the movie; no vote, no change.
    pub fn delete_vote(&mut self, user_id: i32, movie_id: i32)
        requires
            old(self).wf(),
        ensures
            final(self).wf(),
            final(self)@ == remove_pair(old(self)@, user_id, movie_id),
    {
        match self.find(user_id, movie_id) {
            Some(i) => {
                proof {
                    lemma_remove_unique(self@, i as int);
                }
                self.rows.remove(i);
            },
            None => {},
        }
    }

    /// Number of votes of kind `kind` on `movie_id`.
    pub fn count(&self, movie_id: i32, kind: VoteType) -> (r: u64)
        ensures
            r == count_kind(self@, movie_id, kind),
    {
        let mut n: u64 = 0;
        let mut i: usize = 0;
        while i < self.rows.len()
            invariant
                i <= self@.len(),
                self.rows@ == self@,
                n == count_kind(self@.take(i as int), movie_id, kind),
                n <= i,
            decreases self@.len() - i,
        {
            assert(self@.take(i + 1).drop_last() =~= self@.take(i as int));
            let b = self.rows[i];
            if b.movie_id == movie_id && b.kind == kind {
                n = n + 1;
            }
            i = i + 1;
        }
        assert(self@.take(self@.len() as int) =~= self@);
        n
    }

    /// Like and hate counts of `movie_id`.
    pub fn counts(&self, movie_id: i32) -> (r: VoteCounts)
        ensures
            r.like_count == count_kind(self@, movie_id, VoteType::Like),
            r.hate_count == count_kind(self@, movie_id, VoteType::Hate),
    {
        VoteCounts {
            like_count: self.count(movie_id, VoteType::Like),
            hate_count: self.count(movie_id, VoteType::Hate),
        }
    }

    /// The votes of `user_id` on the movies of `movie_ids`, keyed by movie;
    /// a movie without a vote has no entry.
    pub fn get_user_votes_for_movies(&self, user_id: i32, movie_ids: &[i32]) -> (r: HashMap<
        i32,
        VoteType,
    >)
        requires
            self.wf(),
        ensures
            r@ == votes_on(self@, user_id, movie_ids@),
    {
        broadcast use vstd::std_specs::hash::group_hash_axioms;

        let mut out: HashMap<i32, VoteType> = HashMap::new();
        let mut i: usize = 0;
        while i < movie_ids.len()
            invariant
                self.wf(),
                i <= movie_ids@.len(),
                out@ == votes_on(self@, user_id, movie_ids@.take(i as int)),
            decreases movie_ids@.len() - i,
        {
            let movie_id = movie_ids[i];
            let ghost before = movie_ids@.take(i as int);
            let ghost after = movie_ids@.take(i + 1);
            assert(after =~= before.push(movie_id));
            assert forall|m: i32| after.contains(m) == (before.contains(m) || m == movie_id) by {
                if after.contains(m) {
                    let k = choose|k: int| 0 <= k < after.len() && after[k] == m;
                    if k < before.len() {
                        assert(before[k] == m);
                    }
                }
                if before.contains(m) {
                    let k = choose|k: int| 0 <= k < before.len() && before[k] == m;
                    assert(after[k] == m);
                }
                if m == movie_id {
                    assert(after[before.len() as int] == m);
                }
            }
            match self.get_vote(user_id, movie_id) {
                Some(v) => {
                    out.insert(movie_id, v);
                    assert(out@ =~= votes_on(self@, user_id, after));
                },
                None => {
                    assert(out@ =~= votes_on(self@, user_id, after));
                },
            }
            i = i + 1;
        }
        assert(movie_ids@.take(movie_ids@.len() as int) =~= movie_ids@);
        out
    }

    /// Removes every vote on `movie_id`, as deleting the movie requires.
    pub fn delete_movie_votes(&mut self, movie_id: i32)
        requires
            old(self).wf(),
        ensures
            final(self).wf(),
            final(self)@ == without_movie(old(self)@, movie_id),
    {
        let mut kept: Vec<Ballot> = Vec::new();
        let mut i: usize = 0;
        while i < self.rows.len()
            invariant
                i <= self@.len(),
                self.rows@ == self@,
                kept@ == without_movie(self@.take(i as int), movie_id),
            decreases self@.len() - i,
        {
            let b = self.rows[i];
            assert(self@.take(i + 1).drop_last() =~= self@.take(i as int));
            if b.movie_id != movie_id {
                kept.push(b);
            }
            i = i + 1;
        }
        assert(self@.take(self@.len() as int) =~= self@);
        proof {
            lemma_without_movie_unique(self@, movie_id);
        }
        self.rows = kept;
    }

    /// Applies a vote of `user_id` on `movie_id`: exactly one insert, update
    /// or delete, as `action_for` decides, and returns the movie's fresh
    /// counts. A movie that does not exist is not found, and nothing changes.
    pub fn vote_movie(&mut self, movie_exists: bool, user_id: i32, movie_id: i32, kind: VoteType) -> (r:
        Result<VoteCounts, MovieramaError>)
        requires
            old(self).wf(),
        ensures
            final(self).wf(),
            !movie_exists ==> r == Err::<VoteCounts, MovieramaError>(MovieramaError::NotFound)
                && final(self)@ == old(self)@,
            movie_exists ==> final(self)@ == after_vote(old(self)@, user_id, movie_id, kind) && (
            r matches Ok(c) && c.like_count == count_kind(final(self)@, movie_id, VoteType::Like)
                && c.hate_count == count_kind(final(self)@, movie_id, VoteType::Hate)),
    {
        if !movie_exists {
            return Err(MovieramaError::NotFound);
        }
        let current = self.get_vote(user_id, movie_id);
        match reconcile_action(current, kind) {
            VoteAction::Insert(k) => {
                let _ = self.insert_vote(user_id, movie_id, k);
            },
            VoteAction::Update(k) => {
                self.update_vote(user_id, movie_id, k);
            },
            VoteAction::Delete => {
                self.delete_vote(user_id, movie_id);
            },
        }
        Ok(self.counts(movie_id))
    }
}

} // verus!
