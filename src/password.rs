use crate::subscriber_name::{count_graphemes, grapheme_count};
use argon2::PasswordVerifier;
use vstd::prelude::*;

verus! {

/// Fewest grapheme clusters a password may have.
pub const MIN_PASSWORD_GRAPHEMES: usize = 12;

/// Most grapheme clusters a password may have.
pub const MAX_PASSWORD_GRAPHEMES: usize = 128;

/// A password of an accepted length.
#[derive(Clone)]
pub struct Password {
    secret: String,
}

/// Why a password was refused.
#[derive(Debug, Clone, Copy, PartialEq, Eq, Structural)]
pub enum PasswordError {
    TooShort,
    TooLong,
}

/// Why a password of `s` is refused, if it is.
pub open spec fn password_error(s: Seq<char>) -> Option<PasswordError> {
    if grapheme_count(s) < MIN_PASSWORD_GRAPHEMES {
        Some(PasswordError::TooShort)
    } else if grapheme_count(s) > MAX_PASSWORD_GRAPHEMES {
        Some(PasswordError::TooLong)
    } else {
        None
    }
}

impl PasswordError {
    pub fn message(&self) -> &'static str {
        match self {
            PasswordError::TooShort => "The password length must be at least 12 characters.",
            PasswordError::TooLong => "The password length must be less than 128 characters.",
        }
    }
}

impl View for Password {
    type V = Seq<char>;

    closed spec fn view(&self) -> Seq<char> {
        self.secret@
    }
}

impl Password {
    /// Accepts a password of 12 to 128 grapheme clusters.
    pub fn parse(s: String) -> (r: Result<Password, PasswordError>)
        ensures
            grapheme_count(s@) < MIN_PASSWORD_GRAPHEMES ==> r == Err::<Password, PasswordError>(
                PasswordError::TooShort,
            ),
            grapheme_count(s@) > MAX_PASSWORD_GRAPHEMES ==> r == Err::<Password, PasswordError>(
                PasswordError::TooLong,
            ),
            MIN_PASSWORD_GRAPHEMES <= grapheme_count(s@) <= MAX_PASSWORD_GRAPHEMES ==> (r matches Ok(p)
                && p@ == s@),
    {
        let n = count_graphemes(s.as_str());
        if n < MIN_PASSWORD_GRAPHEMES {
            return Err(PasswordError::TooShort);
        }
        if n > MAX_PASSWORD_GRAPHEMES {
            return Err(PasswordError::TooLong);
        }
        Ok(Password { secret: s })
    }

    pub fn expose_secret(&self) -> (r: &str)
        ensures
            r@ == self@,
    {
        self.secret.as_str()
    }
}

/// The three fields of the change-password form, each of an accepted length.
pub struct ValidPasswords {
    pub current_password: Password,
    pub new_password: Password,
    pub new_password_check: Password,
}

impl ValidPasswords {
    /// Accepts the form when all three passwords have accepted lengths.
    pub fn parse(current_password: String, new_password: String, new_password_check: String) -> (r: Result<
        ValidPasswords,
        PasswordError,
    >)
        ensures
            r is Ok <==> ({
                &&& password_error(current_password@) is None
                &&& password_error(new_password@) is None
                &&& password_error(new_password_check@) is None
            }),
            password_error(current_password@) matches Some(e) ==> r == Err::<ValidPasswords, PasswordError>(e),
            password_error(current_password@) is None ==> (password_error(new_password@) matches Some(e)
                ==> r == Err::<ValidPasswords, PasswordError>(e)),
            password_error(current_password@) is None && password_error(new_password@) is None ==> (
            password_error(new_password_check@) matches Some(e) ==> r == Err::<ValidPasswords, PasswordError>(
                e,
            )),
            r matches Ok(v) ==> (v.current_password@ == current_password@ && v.new_password@
                == new_password@ && v.new_password_check@ == new_password_check@),
    {
        let current_password = Password::parse(current_password)?;
        let new_password = Password::parse(new_password)?;
        let new_password_check = Password::parse(new_password_check)?;
        Ok(ValidPasswords { current_password, new_password, new_password_check })
    }

    /// Whether the new password was typed the same twice.
    pub fn new_passwords_match(&self) -> (r: bool)
        ensures
            r == (self.new_password@ == self.new_password_check@),
    {
        self.new_password.secret == self.new_password_check.secret
    }
}

/// Why credentials were not accepted.
#[derive(Debug, Clone, Copy, PartialEq, Eq, Structural)]
pub enum AuthError {
    /// The user is unknown or the password is wrong.
    InvalidCredentials,
    /// The stored hash could not be read.
    UnexpectedError,
}

/// Whether `s` is a password hash in PHC string format.
pub uninterp spec fn is_phc_hash(s: Seq<char>) -> bool;

/// Whether Argon2 accepts `password` against the PHC hash `hash`.
pub uninterp spec fn argon2_accepts(hash: Seq<char>, password: Seq<char>) -> bool;

/// Relies on password-hash's `PasswordHash::new`: whether the text parses as
/// a PHC string, which depends on the text alone.
#[verifier::external_body]
fn parses_as_phc(hash: &str) -> (r: bool)
    ensures
        r == is_phc_hash(hash@),
{
    argon2::PasswordHash::new(hash).is_ok()
}

/// Relies on argon2's `Argon2::default().verify_password`: whether the
/// password hashes, with the salt and parameters that the PHC string holds,
/// to the hash it holds; this depends on the two texts alone.
#[verifier::external_body]
fn argon2_verify(hash: &str, password: &str) -> (r: bool)
    requires
        is_phc_hash(hash@),
    ensures
        r == argon2_accepts(hash@, password@),
{
    match argon2::PasswordHash::new(hash) {
        Ok(h) => argon2::Argon2::default().verify_password(password.as_bytes(), &h).is_ok(),
        Err(_) => false,
    }
}

/// Checks `candidate` against the stored hash `expected`.
pub fn verify_password_hash(expected: &str, candidate: &str) -> (r: Result<(), AuthError>)
    ensures
        !is_phc_hash(expected@) ==> r == Err::<(), AuthError>(AuthError::UnexpectedError),
        is_phc_hash(expected@) && !argon2_accepts(expected@, candidate@) ==> r == Err::<(), AuthError>(
            AuthError::InvalidCredentials,
        ),
        is_phc_hash(expected@) && argon2_accepts(expected@, candidate@) ==> r is Ok,
{
    if !parses_as_phc(expected) {
        return Err(AuthError::UnexpectedError);
    }
    if !argon2_verify(expected, candidate) {
        return Err(AuthError::InvalidCredentials);
    }
    Ok(())
}

/// A well-formed hash that no password is expected to match: checked in
/// place of a stored one for an unknown user, so that unknown users take as
/// long to refuse as known ones.
pub const FALLBACK_PASSWORD_HASH: &'static str =
    "$argon2id$v=19$m=15000,t=2,p=1$gZiV/M1gPc22ElAH/Jh1Hw$CWOrkoo7oJBQ/iyh7uJ0LO2aLEfrHwTWllSAxT0zRno";

/// The hash that a login is checked against.
pub open spec fn checked_hash(stored: Option<(u128, String)>) -> Seq<char> {
    match stored {
        Some(row) => row.1@,
        None => FALLBACK_PASSWORD_HASH@,
    }
}

/// Decides a login from the stored user id and password hash of the user
/// name, if the user is known: the password is always checked, against the
/// fallback hash for an unknown user, and only a known user with a matching
/// password is let in.
pub fn check_credentials(stored: Option<(u128, String)>, password: &str) -> (r: Result<u128, AuthError>)
    ensures
        !is_phc_hash(checked_hash(stored)) ==> r == Err::<u128, AuthError>(AuthError::UnexpectedError),
        is_phc_hash(checked_hash(stored)) && !argon2_accepts(checked_hash(stored), password@) ==> r
            == Err::<u128, AuthError>(AuthError::InvalidCredentials),
        is_phc_hash(checked_hash(stored)) && argon2_accepts(checked_hash(stored), password@) ==> r
            == match stored {
            Some(row) => Ok::<u128, AuthError>(row.0),
            None => Err::<u128, AuthError>(AuthError::InvalidCredentials),
        },
{
    let ghost h = checked_hash(stored);
    let (user_id, expected) = match stored {
        Some(row) => (Some(row.0), row.1),
        None => (None, String::from_str(FALLBACK_PASSWORD_HASH)),
    };
    assert(expected@ == h);
    verify_password_hash(expected.as_str(), password)?;
    match user_id {
        Some(id) => Ok(id),
        None => Err(AuthError::InvalidCredentials),
    }
}

} // verus!
