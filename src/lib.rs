//! Vote reconciliation, aggregate vote counts, sort and page handling and
//! the credential checks of a small movie-rating service.
//!
//! Storage and transport live outside this crate: it decides what to read
//! and write, and computes the values that go back to the caller.

pub mod auth;
pub mod error;
pub mod models;
pub mod pagination;
pub mod session;
pub mod text;
pub mod votes;

pub use auth::{
    authenticate, claims_expiring_at, hash_new_password, issue_claims, login_user, Claims,
    MAX_CLOCK_SECONDS, TOKEN_LIFETIME_HOURS,
};
pub use error::MovieramaError;
pub use models::{
    vote_type_param, AuthResponse, LoginUser, Movie, MovieRow, NewMovie, RegisterUser, User,
    UserSummary, VoteType,
};
pub use pagination::{page_of, Page, Pageable, PageableQuery, Sort, SortOrder};
pub use session::{vote_start, vote_step, VoteCommand, VoteEvent, VotePhase};
pub use votes::{
    collect_user_votes, reconcile_action, Ballot, VoteAction, VoteCounts, VoteRow, VoteTable,
};
