use stalwart::auth::{
    auth_command, challenge_step, encode_credentials, strongest_mechanism, AuthAttempt, AuthError, AuthNext,
    AuthOutcome, AuthState, ChallengeStep, Credentials, AUTH_LOGIN, AUTH_OAUTHBEARER, AUTH_PLAIN, AUTH_XOAUTH2,
};
use stalwart::queue::Response;

fn basic() -> Credentials {
    Credentials::Basic { username: "user".to_string(), secret: "pass".to_string() }
}

#[test]
fn strongest_is_highest_bit() {
    assert_eq!(strongest_mechanism(1), 1);
    assert_eq!(strongest_mechanism(0b1011), 0b1000);
    assert_eq!(strongest_mechanism(AUTH_LOGIN | AUTH_PLAIN), AUTH_PLAIN);
    assert_eq!(strongest_mechanism(u64::MAX), 1 << 63);
}

#[test]
fn tries_strongest_first_then_reports_last_reply() {
    let mut state = AuthState::new(&basic(), AUTH_LOGIN | AUTH_PLAIN | AUTH_XOAUTH2);
    assert!(matches!(state.next(), AuthNext::Try(m) if m == AUTH_PLAIN));
    let reply = Response { code: 504, esc: [5, 5, 4], message: "no".to_string() };
    assert!(state.record(AuthAttempt::Rejected(reply)).is_none());
    assert!(matches!(state.next(), AuthNext::Try(m) if m == AUTH_LOGIN));
    assert!(state.record(AuthAttempt::Unsupported).is_none());
    match state.next() {
        AuthNext::Finish(AuthOutcome::AuthenticationFailed(r)) => assert_eq!(r.code, 504),
        _ => panic!("expected failure"),
    }
}

#[test]
fn bad_credentials_stop_at_once() {
    let mut state = AuthState::new(&basic(), AUTH_LOGIN | AUTH_PLAIN);
    assert!(matches!(state.next(), AuthNext::Try(_)));
    let reply = Response { code: 535, esc: [5, 7, 8], message: "bad".to_string() };
    assert!(state.record(AuthAttempt::Rejected(reply)).is_none());
    assert!(matches!(state.next(), AuthNext::Finish(AuthOutcome::AuthenticationFailed(_))));
    assert!(matches!(state.record(AuthAttempt::Accepted), Some(AuthOutcome::Authenticated)));
    assert!(matches!(state.record(AuthAttempt::Failed), Some(AuthOutcome::Aborted)));
}

#[test]
fn no_usable_mechanism() {
    let mut state = AuthState::new(&basic(), AUTH_XOAUTH2);
    assert_eq!(state.available, 0);
    assert!(matches!(state.next(), AuthNext::Finish(AuthOutcome::UnsupportedAuthMechanism)));
}

#[test]
fn plain_and_bearer_credentials() {
    assert_eq!(encode_credentials(&basic(), AUTH_PLAIN, "").unwrap(), "AHVzZXIAcGFzcw==");
    let bearer = Credentials::Bearer { token: "tok".to_string(), username: Some("john".to_string()) };
    assert_eq!(encode_credentials(&bearer, AUTH_XOAUTH2, "").unwrap(), "dXNlcj1qb2huAWF1dGg9QmVhcmVyIHRvawEB");
    assert_eq!(encode_credentials(&bearer, AUTH_OAUTHBEARER, "").unwrap(), "dG9r");
    assert_eq!(encode_credentials(&bearer, AUTH_PLAIN, ""), Err(AuthError::UnsupportedAuthMechanism));
}

#[test]
fn login_answers_the_prompt() {
    assert_eq!(encode_credentials(&basic(), AUTH_LOGIN, "VXNlcm5hbWU6").unwrap(), "dXNlcg==");
    assert_eq!(encode_credentials(&basic(), AUTH_LOGIN, "UGFzc3dvcmQ6").unwrap(), "cGFzcw==");
    assert_eq!(encode_credentials(&basic(), AUTH_LOGIN, "SGVsbG8="), Err(AuthError::InvalidChallenge));
    assert_eq!(encode_credentials(&basic(), AUTH_LOGIN, "!!!"), Err(AuthError::Base64));
}

#[test]
fn auth_commands() {
    assert_eq!(auth_command(&basic(), AUTH_PLAIN).unwrap(), "AUTH PLAIN AHVzZXIAcGFzcw==\r\n");
    assert_eq!(auth_command(&basic(), AUTH_LOGIN).unwrap(), "AUTH LOGIN\r\n");
}

#[test]
fn challenge_steps() {
    assert!(matches!(challenge_step(334, 0), ChallengeStep::Answer));
    assert!(matches!(challenge_step(235, 2), ChallengeStep::Accepted));
    assert!(matches!(challenge_step(334, 3), ChallengeStep::Rejected));
    assert!(matches!(challenge_step(535, 0), ChallengeStep::Rejected));
}
