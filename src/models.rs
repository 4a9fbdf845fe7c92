use vstd::prelude::*;
use vstd::string::*;

use crate::error::MovieramaError;
use crate::text::same_text;

verus! {

/// A user's opinion of a movie.
#[derive(Debug, Clone, Copy, PartialEq, Eq, Structural)]
pub enum VoteType {
    Like,
    Hate,
}

/// The external name of each vote type.
pub open spec fn vote_name(v: VoteType) -> Seq<char> {
    match v {
        VoteType::Like => "LIKE"@,
        VoteType::Hate => "HATE"@,
    }
}

/// The vote type that an external name stands for; the names are exact,
/// upper case.
pub open spec fn parsed_vote(s: Seq<char>) -> Option<VoteType> {
    if s == "LIKE"@ {
        Some(VoteType::Like)
    } else if s == "HATE"@ {
        Some(VoteType::Hate)
    } else {
        None
    }
}

impl VoteType {
    /// Reads `"LIKE"` or `"HATE"`; anything else is a bad request.
    pub fn parse(input: &str) -> (r: Result<VoteType, MovieramaError>)
        ensures
            parsed_vote(input@) matches Some(v) ==> r == Ok::<VoteType, MovieramaError>(v),
            parsed_vote(input@) is None ==> r matches Err(MovieramaError::BadRequest(_)),
    {
        if same_text(input, "LIKE") {
            Ok(VoteType::Like)
        } else if same_text(input, "HATE") {
            Ok(VoteType::Hate)
        } else {
            Err(
                MovieramaError::BadRequest(
                    String::from_str("Invalid vote type, available options are 'LIKE' and 'HATE'."),
                ),
            )
        }
    }

    /// The external name of this vote type.
    pub fn as_str(&self) -> (r: &'static str)
        ensures
            r@ == vote_name(*self),
    {
        match self {
            VoteType::Like => "LIKE",
            VoteType::Hate => "HATE",
        }
    }
}

impl std::str::FromStr for VoteType {
    type Err = MovieramaError;

    fn from_str(input: &str) -> Result<VoteType, MovieramaError> {
        VoteType::parse(input)
    }
}

/// Reads the `type` parameter of a vote request, which must be present.
pub fn vote_type_param(param: Option<&str>) -> (r: Result<VoteType, MovieramaError>)
    ensures
        match param {
            None => r matches Err(MovieramaError::BadRequest(_)),
            Some(p) => match parsed_vote(p@) {
                Some(v) => r == Ok::<VoteType, MovieramaError>(v),
                None => r matches Err(MovieramaError::BadRequest(_)),
            },
        },
{
    match param {
        Some(p) => VoteType::parse(p),
        None => Err(MovieramaError::BadRequest(String::from_str("type query parameter is required"))),
    }
}

/// A registered user, with the hash of their password.
pub struct User {
    pub id: i32,
    pub username: String,
    pub email: String,
    pub password: String,
}

/// What a new user sends to register.
pub struct RegisterUser {
    pub username: String,
    pub email: String,
    pub password: String,
}

/// What a user sends to log in.
pub struct LoginUser {
    pub username: String,
    pub password: String,
}

/// The identity token handed back on registration and login.
pub struct AuthResponse {
    pub token: String,
}

/// The owner of a movie, as listings show it.
pub struct UserSummary {
    pub id: i32,
    pub username: String,
}

/// A movie with its aggregate vote counts.
pub struct Movie {
    pub id: i32,
    pub title: String,
    pub description: Option<String>,
    /// Creation time, in microseconds since the Unix epoch.
    pub date_added: i64,
    pub user: UserSummary,
    pub like_count: u64,
    pub hate_count: u64,
}

/// A movie row as the store returns it, counts included.
pub struct MovieRow {
    pub id: i32,
    pub title: String,
    pub description: Option<String>,
    /// Creation time, in microseconds since the Unix epoch.
    pub date_added: i64,
    pub user_id: i32,
    pub username: String,
    pub like_count: i64,
    pub hate_count: i64,
}

impl Movie {
    /// The movie that a stored row describes.
    pub fn from_row(row: MovieRow) -> (r: Movie)
        requires
            row.like_count >= 0,
            row.hate_count >= 0,
        ensures
            r.id == row.id,
            r.title@ == row.title@,
            r.description == row.description,
            r.date_added == row.date_added,
            r.user.id == row.user_id,
            r.user.username@ == row.username@,
            r.like_count == row.like_count,
            r.hate_count == row.hate_count,
    {
        Movie {
            id: row.id,
            title: row.title,
            description: row.description,
            date_added: row.date_added,
            user: UserSummary { id: row.user_id, username: row.username },
            like_count: row.like_count as u64,
            hate_count: row.hate_count as u64,
        }
    }
}

/// The title and description of a movie to create or update.
pub struct NewMovie {
    pub title: String,
    pub description: Option<String>,
}

impl NewMovie {
    /// A movie needs a title: an empty one is a bad request.
    pub fn validate(&self) -> (r: Result<(), MovieramaError>)
        ensures
            r is Ok <==> self.title@.len() > 0,
            r is Err ==> r matches Err(MovieramaError::BadRequest(_)),
    {
        if self.title.as_str().is_empty() {
            Err(MovieramaError::BadRequest(String::from_str("title must not be empty")))
        } else {
            Ok(())
        }
    }
}

} // verus!
