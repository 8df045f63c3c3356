use miogenes::accounts::{
    auth_error, first_decoded, login_error, signup_error, token_expiry, token_signing_error,
    user_dir_outcome, AuthFailure, LoginFailure, SignupFailure,
};
use miogenes::auth::JWTInner;
use miogenes::error::MioInnerError;

fn challenged(e: MioInnerError) -> (String, u16) {
    match e {
        MioInnerError::UserChallengedFail(m, c) => (m, c),
        _ => panic!("expected a challenge failure"),
    }
}

fn claims(userid: u128, exp: i64) -> Option<JWTInner> {
    Some(JWTInner { userid, exp })
}

#[test]
fn auth_errors() {
    assert_eq!(
        challenged(auth_error(AuthFailure::NoBearer, "missing header")),
        ("Failed to get token as auth was in err: missing header".to_string(), 400)
    );
    assert_eq!(
        challenged(auth_error(AuthFailure::Unreadable, "ignored")),
        ("Invalid auth token".to_string(), 401)
    );
    assert_eq!(
        challenged(auth_error(AuthFailure::NoKeyMatches, "")),
        ("Invalid auth token".to_string(), 401)
    );
}

#[test]
fn first_key_that_verifies_wins() {
    let c = first_decoded(vec![None, claims(7, 100), claims(8, 200)]).unwrap();
    assert_eq!((c.userid, c.exp), (7, 100));
    let c = first_decoded(vec![claims(9, 1)]).unwrap();
    assert_eq!((c.userid, c.exp), (9, 1));
    assert_eq!(
        challenged(first_decoded(vec![None, None]).err().unwrap()),
        ("Invalid auth token".to_string(), 401)
    );
    assert!(first_decoded(vec![]).is_err());
}

#[test]
fn login_errors_do_not_tell_names_apart() {
    let unknown = challenged(login_error(LoginFailure::UnknownUser, "x"));
    let wrong = challenged(login_error(LoginFailure::WrongPassword, "y"));
    assert_eq!(unknown, wrong);
    assert_eq!(unknown, ("Unable to verify user on server".to_string(), 401));
    assert_eq!(
        challenged(login_error(LoginFailure::BadStoredHash, "bad phc")),
        ("Unable to extract phc string: bad phc".to_string(), 500)
    );
}

#[test]
fn signup_errors() {
    match signup_error(SignupFailure::NameTaken, "") {
        MioInnerError::UserCreationFail(m, c) => assert_eq!((m.as_str(), c), ("Username already taken.", 409)),
        _ => panic!("expected a creation failure"),
    }
    match signup_error(SignupFailure::HashFailed, "salt") {
        MioInnerError::UserCreationFail(m, c) => {
            assert_eq!((m.as_str(), c), ("could not generate phc string: salt", 500))
        }
        _ => panic!("expected a creation failure"),
    }
    match signup_error(SignupFailure::DirFailed, "denied") {
        MioInnerError::IntIoError(m) => assert_eq!(m, "Failed to create user dir: denied"),
        _ => panic!("expected an io error"),
    }
    assert!(user_dir_outcome(true, false, "").is_ok());
    assert!(user_dir_outcome(false, true, "exists").is_ok());
    match user_dir_outcome(false, false, "denied") {
        Err(MioInnerError::IntIoError(m)) => assert_eq!(m, "Failed to create user dir: denied"),
        _ => panic!("expected an io error"),
    }
}

#[test]
fn tokens_live_a_week() {
    assert_eq!(token_expiry(0), 604800);
    assert_eq!(token_expiry(1_700_000_000), 1_700_604_800);
    assert_eq!(
        challenged(token_signing_error("key too short")),
        ("failed to generate JWT for user: key too short".to_string(), 500)
    );
}
