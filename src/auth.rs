use vstd::prelude::*;
use vstd::string::*;

use argon2::password_hash::rand_core::OsRng;
use argon2::password_hash::SaltString;
use argon2::{Argon2, PasswordHash, PasswordHasher, PasswordVerifier};

use crate::error::MovieramaError;
use crate::models::{LoginUser, RegisterUser, User};

verus! {

/// What an identity token asserts: the user's name and id, and the time
/// (seconds since the Unix epoch) after which it is no longer accepted.
pub struct Claims {
    pub sub: String,
    pub user_id: i32,
    pub exp: usize,
}

/// How long an issued token stays valid, in hours.
pub const TOKEN_LIFETIME_HOURS: i64 = 24;

/// Seconds either side of 1970 within which token times are computed.
pub const MAX_CLOCK_SECONDS: i64 = 8_000_000_000_000;

/// Whether a text is a password hash in the PHC string format that
/// `PasswordHash::new` accepts.
pub uninterp spec fn phc_parses(s: Seq<char>) -> bool;

/// Whether `Argon2::verify_password` accepts `password` against the parsed
/// PHC string `hash`: it recomputes the hash with the parameters and salt
/// that `hash` carries and compares the outputs.
pub uninterp spec fn password_verifies(password: Seq<char>, hash: Seq<char>) -> bool;

/// Relies on argon2's `PasswordHash::new`, which parses the stored PHC
/// string, and `Argon2::verify_password`, which recomputes the hash of
/// `password` with the parameters and salt of that string and compares.
/// Both depend on their arguments alone.
#[verifier::external_body]
fn password_matches(password: &str, stored: &str) -> (r: Result<bool, String>)
    ensures
        r is Ok <==> phc_parses(stored@),
        r matches Ok(b) ==> b == password_verifies(password@, stored@),
{
    match PasswordHash::new(stored) {
        Ok(parsed) => Ok(Argon2::default().verify_password(password.as_bytes(), &parsed).is_ok()),
        Err(e) => Err(e.to_string()),
    }
}

/// Relies on argon2's `Argon2::hash_password`, salted by
/// `SaltString::generate` from the operating system's random source. The
/// salt is random, but whatever it is, the PHC string that comes back
/// parses, and `verify_password`, recomputing with the salt and parameters
/// that the string carries, accepts the same password against it.
#[verifier::external_body]
fn hash_with_random_salt(password: &str) -> (r: Result<String, String>)
    ensures
        r matches Ok(h) ==> phc_parses(h@) && password_verifies(password@, h@),
{
    let salt = SaltString::generate(&mut OsRng);
    match Argon2::default().hash_password(password.as_bytes(), &salt) {
        Ok(hash) => Ok(hash.to_string()),
        Err(e) => Err(e.to_string()),
    }
}

/// Relies on chrono's `DateTime::checked_add_signed` with a
/// `TimeDelta::hours` span: the Unix time `hours` hours after `timestamp`,
/// or `None` where that leaves chrono's range of dates, the years -262142
/// to 262142, about 8.2e12 seconds either side of 1970: a timestamp within
/// 8e12 seconds of 1970, moved by at most a million hours, stays inside.
/// `TimeDelta::hours` panics beyond about 2.5 trillion hours, which the
/// bound keeps out.
#[verifier::external_body]
fn add_hours(timestamp: i64, hours: i64) -> (r: Option<i64>)
    requires
        -1_000_000 <= hours <= 1_000_000,
    ensures
        r matches Some(t) ==> t == timestamp + hours * 3600,
        -MAX_CLOCK_SECONDS <= timestamp <= MAX_CLOCK_SECONDS ==> r is Some,
{
    match chrono::DateTime::from_timestamp(timestamp, 0) {
        Some(start) => match start.checked_add_signed(chrono::TimeDelta::hours(hours)) {
            Some(end) => Some(end.timestamp()),
            None => None,
        },
        None => None,
    }
}

/// The stored hash of a new user's password: a PHC string against which
/// that password verifies. The error of the hasher is reported as
/// unexpected.
pub fn hash_new_password(data: &RegisterUser) -> (r: Result<String, MovieramaError>)
    ensures
        r matches Ok(h) ==> phc_parses(h@) && password_verifies(data.password@, h@),
        r is Err ==> r matches Err(MovieramaError::UnexpectedError(_)),
{
    match hash_with_random_salt(data.password.as_str()) {
        Ok(h) => Ok(h),
        Err(e) => Err(MovieramaError::UnexpectedError(e)),
    }
}

/// Checks `password` against the user's stored hash: a stored hash that
/// cannot be read is unexpected, a wrong password is unauthorized.
pub fn authenticate(user: &User, password: &str) -> (r: Result<(), MovieramaError>)
    ensures
        !phc_parses(user.password@) ==> r matches Err(MovieramaError::UnexpectedError(_)),
        phc_parses(user.password@) && !password_verifies(password@, user.password@) ==> r == Err::<
            (),
            MovieramaError,
        >(MovieramaError::Unauthorized),
        phc_parses(user.password@) && password_verifies(password@, user.password@) ==> r is Ok,
{
    match password_matches(password, user.password.as_str()) {
        Ok(true) => Ok(()),
        Ok(false) => Err(MovieramaError::Unauthorized),
        Err(e) => Err(MovieramaError::UnexpectedError(e)),
    }
}

/// What issuing a token for `user` with `password` at `now` gives: a
/// stored hash that cannot be read is unexpected, a wrong password is
/// unauthorized; with the right one, claims for the user that expire
/// `TOKEN_LIFETIME_HOURS` after `now`. They are owed whenever `now` lies
/// within `MAX_CLOCK_SECONDS` after 1970 and the expiry fits a `usize`;
/// otherwise the expiry may be out of range, which is unexpected.
pub open spec fn issued_for(user: User, password: Seq<char>, now: i64, r: Result<Claims, MovieramaError>) -> bool {
    if !phc_parses(user.password@) {
        r matches Err(MovieramaError::UnexpectedError(_))
    } else if !password_verifies(password, user.password@) {
        r == Err::<Claims, MovieramaError>(MovieramaError::Unauthorized)
    } else {
        &&& match r {
            Ok(c) => c.sub@ == user.username@ && c.user_id == user.id && c.exp == now
                + TOKEN_LIFETIME_HOURS * 3600,
            Err(e) => e matches MovieramaError::UnexpectedError(_),
        }
        &&& (0 <= now <= MAX_CLOCK_SECONDS && now + TOKEN_LIFETIME_HOURS * 3600 <= usize::MAX
            ==> r is Ok)
    }
}

/// The claims of a token for `user`, once `password` is checked, valid for
/// `TOKEN_LIFETIME_HOURS` from `now` (Unix seconds).
pub fn issue_claims(user: &User, password: &str, now: i64) -> (r: Result<Claims, MovieramaError>)
    ensures
        issued_for(*user, password@, now, r),
{
    match authenticate(user, password) {
        Ok(()) => {},
        Err(e) => {
            return Err(e);
        },
    }
    claims_expiring_at(user, add_hours(now, TOKEN_LIFETIME_HOURS))
}

/// The claims for `user` that expire at `expiry` (Unix seconds); an expiry
/// that could not be computed, or that is negative or beyond `usize`, is
/// unexpected.
pub fn claims_expiring_at(user: &User, expiry: Option<i64>) -> (r: Result<Claims, MovieramaError>)
    ensures
        match expiry {
            Some(t) if 0 <= t <= usize::MAX => r matches Ok(c) && c.sub@ == user.username@
                && c.user_id == user.id && c.exp == t,
            _ => r matches Err(MovieramaError::UnexpectedError(_)),
        },
{
    match expiry {
        Some(t) => {
            if t < 0 || t as u64 > usize::MAX as u64 {
                Err(MovieramaError::UnexpectedError(String::from_str("token expiry out of range")))
            } else {
                Ok(Claims { sub: user.username.clone(), user_id: user.id, exp: t as usize })
            }
        },
        None => Err(MovieramaError::UnexpectedError(String::from_str("token expiry out of range"))),
    }
}

/// Logs a user in: `found` is the user the store holds under the given
/// name, if any. An unknown name is not found; otherwise the password
/// decides, as `issue_claims` says.
pub fn login_user(found: Option<User>, data: &LoginUser, now: i64) -> (r: Result<
    Claims,
    MovieramaError,
>)
    ensures
        match found {
            None => r == Err::<Claims, MovieramaError>(MovieramaError::NotFound),
            Some(u) => issued_for(u, data.password@, now, r),
        },
{
    match found {
        None => Err(MovieramaError::NotFound),
        Some(u) => issue_claims(&u, data.password.as_str(), now),
    }
}

impl Claims {
    /// Accepts these claims at time `now` (Unix seconds) unless they have
    /// expired, which is unauthorized.
    pub fn check_expiry(self, now: usize) -> (r: Result<Claims, MovieramaError>)
        ensures
            self.exp >= now ==> r == Ok::<Claims, MovieramaError>(self),
            self.exp < now ==> r == Err::<Claims, MovieramaError>(MovieramaError::Unauthorized),
    {
        if self.exp < now {
            Err(MovieramaError::Unauthorized)
        } else {
            Ok(self)
        }
    }
}

} // verus!
