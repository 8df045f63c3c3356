use vstd::prelude::*;
use crate::auth::JWTInner;
use crate::error::MioInnerError;

verus! {

/// Why a request's token was not accepted.
#[derive(Clone, Copy, PartialEq, Eq, Structural, Debug)]
pub enum AuthFailure {
    /// The `Authorization` header holds no bearer token.
    NoBearer,
    /// The token's claims could not be read.
    Unreadable,
    /// No stored key of the user verifies the token.
    NoKeyMatches,
}

/// The error that refuses a request whose token was not accepted; `detail` is
/// the text of the header error for `NoBearer`.
pub fn auth_error(why: AuthFailure, detail: &str) -> (res: MioInnerError)
    ensures
        why == AuthFailure::NoBearer ==> (res matches MioInnerError::UserChallengedFail(m, c) && c
            == 400 && m@ == "Failed to get token as auth was in err: "@ + detail@),
        why != AuthFailure::NoBearer ==> (res matches MioInnerError::UserChallengedFail(m, c) && c
            == 401 && m@ == "Invalid auth token"@),
{
    match why {
        AuthFailure::NoBearer => {
            let mut m = String::from_str("Failed to get token as auth was in err: ");
            m.append(detail);
            MioInnerError::UserChallengedFail(m, 400)
        },
        _ => MioInnerError::UserChallengedFail(String::from_str("Invalid auth token"), 401),
    }
}

/// The claims of a token, from the first of the user's unexpired keys that
/// verifies it; the keys are tried in order of expiry, and `decoded[i]` is what
/// key `i` gave. When none verifies it, the request is refused.
pub fn first_decoded(decoded: Vec<Option<JWTInner>>) -> (res: Result<JWTInner, MioInnerError>)
    ensures
        res is Ok <==> exists|i: int| 0 <= i < decoded@.len() && decoded@[i] is Some,
        res matches Ok(c) ==> exists|i: int|
            0 <= i < decoded@.len() && decoded@[i] == Some(c) && forall|j: int|
                0 <= j < i ==> decoded@[j] is None,
        res matches Err(e) ==> (e matches MioInnerError::UserChallengedFail(m, c) && c == 401 && m@
            == "Invalid auth token"@),
{
    let mut i: usize = 0;
    while i < decoded.len()
        invariant
            i <= decoded@.len(),
            forall|j: int| 0 <= j < i ==> decoded@[j] is None,
        decreases decoded@.len() - i,
    {
        match &decoded[i] {
            Some(c) => {
                return Ok(JWTInner { userid: c.userid, exp: c.exp });
            },
            None => {},
        }
        i = i + 1;
    }
    Err(auth_error(AuthFailure::NoKeyMatches, ""))
}

/// Why a login failed.
#[derive(Clone, Copy, PartialEq, Eq, Structural, Debug)]
pub enum LoginFailure {
    /// No user has the name.
    UnknownUser,
    /// The stored password hash could not be read; `detail` is the parser's error.
    BadStoredHash,
    /// The password does not match the stored hash.
    WrongPassword,
}

/// The error that answers a failed login. Unknown users and wrong passwords get
/// the same answer, so that the answer does not tell which names exist.
pub fn login_error(why: LoginFailure, detail: &str) -> (res: MioInnerError)
    ensures
        why == LoginFailure::BadStoredHash ==> (res matches MioInnerError::UserChallengedFail(m, c)
            && c == 500 && m@ == "Unable to extract phc string: "@ + detail@),
        why != LoginFailure::BadStoredHash ==> (res matches MioInnerError::UserChallengedFail(m, c)
            && c == 401 && m@ == "Unable to verify user on server"@),
{
    match why {
        LoginFailure::BadStoredHash => {
            let mut m = String::from_str("Unable to extract phc string: ");
            m.append(detail);
            MioInnerError::UserChallengedFail(m, 500)
        },
        _ => MioInnerError::UserChallengedFail(
            String::from_str("Unable to verify user on server"),
            401,
        ),
    }
}

/// Why a signup failed.
#[derive(Clone, Copy, PartialEq, Eq, Structural, Debug)]
pub enum SignupFailure {
    /// Another user has the name.
    NameTaken,
    /// The password could not be hashed; `detail` is the hasher's error.
    HashFailed,
    /// The user's directory could not be created; `detail` is the io error.
    DirFailed,
}

/// The error that answers a failed signup.
pub fn signup_error(why: SignupFailure, detail: &str) -> (res: MioInnerError)
    ensures
        why == SignupFailure::NameTaken ==> (res matches MioInnerError::UserCreationFail(m, c) && c
            == 409 && m@ == "Username already taken."@),
        why == SignupFailure::HashFailed ==> (res matches MioInnerError::UserCreationFail(m, c) && c
            == 500 && m@ == "could not generate phc string: "@ + detail@),
        why == SignupFailure::DirFailed ==> (res matches MioInnerError::IntIoError(m) && m@
            == "Failed to create user dir: "@ + detail@),
{
    match why {
        SignupFailure::NameTaken => MioInnerError::UserCreationFail(
            String::from_str("Username already taken."),
            409,
        ),
        SignupFailure::HashFailed => {
            let mut m = String::from_str("could not generate phc string: ");
            m.append(detail);
            MioInnerError::UserCreationFail(m, 500)
        },
        SignupFailure::DirFailed => {
            let mut m = String::from_str("Failed to create user dir: ");
            m.append(detail);
            MioInnerError::IntIoError(m)
        },
    }
}

/// The outcome of creating a new user's directory: a directory that is already
/// there is fine; any other failure fails the signup.
pub fn user_dir_outcome(created: bool, already_exists: bool, detail: &str) -> (res: Result<(), MioInnerError>)
    ensures
        res is Ok <==> (created || already_exists),
        res matches Err(e) ==> (e matches MioInnerError::IntIoError(m) && m@
            == "Failed to create user dir: "@ + detail@),
{
    if created || already_exists {
        Ok(())
    } else {
        Err(signup_error(SignupFailure::DirFailed, detail))
    }
}

/// Seconds in the seven days a new token lives.
pub open spec fn token_lifetime() -> int {
    604800
}

/// When a token made at `now` (seconds since the Unix epoch) expires: seven
/// days later.
pub fn token_expiry(now: i64) -> (res: i64)
    requires
        now <= i64::MAX - 604800,
    ensures
        res == now + token_lifetime(),
{
    now + 604800
}

/// The error of a token that could not be signed; `detail` is the signer's error.
pub fn token_signing_error(detail: &str) -> (res: MioInnerError)
    ensures
        res matches MioInnerError::UserChallengedFail(m, c) && c == 500 && m@
            == "failed to generate JWT for user: "@ + detail@,
{
    let mut m = String::from_str("failed to generate JWT for user: ");
    m.append(detail);
    MioInnerError::UserChallengedFail(m, 500)
}

} // verus!
