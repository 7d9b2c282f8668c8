use bookmark_sync::auth::password::PasswordError;
use bookmark_sync::config::Config;
use bookmark_sync::data::sessions::Session;
use bookmark_sync::data::users::User;
use bookmark_sync::data::Data;
use bookmark_sync::error::{ApiError, StorageError};
use bookmark_sync::handlers::{session_cookie, AuthForm, Fresh};
use bookmark_sync::signin::{perform, run, Action, Event, Purpose, SignIn};

const MONTH: i64 = 2_592_000_000_000;

fn config() -> Config {
    Config {
        database_url: String::new(),
        front_url: String::new(),
        secret: "secret".to_string(),
        is_prod: false,
    }
}

fn form() -> AuthForm {
    AuthForm { username: "alice".to_string(), password: "pw".to_string() }
}

fn fresh() -> Fresh {
    Fresh { user_id: "u1".to_string(), session_id: "s1".to_string(), now: 1_000, answered_at: 0 }
}

fn alice(hash: &str) -> User {
    User { id: "u1".to_string(), username: "alice".to_string(), password_hash: hash.to_string() }
}

fn session() -> Session {
    Session { id: "s1".to_string(), user_id: "u1".to_string(), expiry: Some(1_000 + MONTH) }
}

fn ended(error: ApiError) -> (SignIn, Action) {
    (SignIn::Done, Action::Answer(Err(error)))
}

fn unexpected(text: &str) -> ApiError {
    ApiError::UnexpectedError(text.to_string())
}

#[test]
fn both_calls_begin_by_looking_the_name_up() {
    assert_eq!(
        SignIn::login(form(), fresh()),
        (
            SignIn::Finding { purpose: Purpose::Login, form: form(), fresh: fresh() },
            Action::FindUser("alice".to_string())
        )
    );
    assert_eq!(
        SignIn::register(form(), fresh()),
        (
            SignIn::Finding { purpose: Purpose::Register, form: form(), fresh: fresh() },
            Action::FindUser("alice".to_string())
        )
    );
}

#[test]
fn login_of_a_known_user_step_by_step() {
    let (state, _) = SignIn::login(form(), fresh());
    let (state, action) = state.next(Event::Found(Ok(Some(alice("hash")))), &config());
    assert_eq!(
        action,
        Action::VerifyPassword { password: "pw".to_string(), hash: "hash".to_string() }
    );
    let (state, action) = state.next(Event::Verified(Ok(true)), &config());
    assert_eq!(action, Action::InsertSession(session()));
    let (state, action) = state.next(Event::Stored { outcome: Ok(()), at: 2_000_000 }, &config());
    assert_eq!(state, SignIn::Done);
    assert_eq!(
        action,
        Action::Answer(Ok(session_cookie(&config(), "u1", "s1", 1_000 + MONTH, 2_000_000)))
    );
}

#[test]
fn login_with_a_wrong_password_ends() {
    let (state, _) = SignIn::login(form(), fresh());
    let (state, _) = state.next(Event::Found(Ok(Some(alice("hash")))), &config());
    assert_eq!(
        state.next(Event::Verified(Ok(false)), &config()),
        ended(ApiError::Unauthorized("invalid creds".to_string()))
    );
    let (state, _) = SignIn::login(form(), fresh());
    let (state, _) = state.next(Event::Found(Ok(Some(alice("hash")))), &config());
    assert_eq!(
        state.next(Event::Verified(Err(PasswordError::MalformedHash)), &config()),
        ended(unexpected("error verifying password"))
    );
}

#[test]
fn login_of_a_new_user_step_by_step() {
    let (state, _) = SignIn::login(form(), fresh());
    let (state, action) = state.next(Event::Found(Ok(None)), &config());
    assert_eq!(action, Action::HashPassword("pw".to_string()));
    let (state, action) = state.next(Event::Hashed(Ok("hash".to_string())), &config());
    assert_eq!(action, Action::InsertUser(alice("hash")));
    let (state, action) = state.next(Event::Stored { outcome: Ok(()), at: 5 }, &config());
    assert_eq!(action, Action::InsertSession(session()));
    let (state, action) = state.next(Event::Stored { outcome: Ok(()), at: 1_000 }, &config());
    assert_eq!(state, SignIn::Done);
    assert_eq!(action, Action::Answer(Ok(session_cookie(&config(), "u1", "s1", 1_000 + MONTH, 1_000))));
}

#[test]
fn registration_step_by_step() {
    let (state, _) = SignIn::register(form(), fresh());
    let (state, action) = state.next(Event::Found(Ok(None)), &config());
    assert_eq!(action, Action::HashPassword("pw".to_string()));
    let (state, action) = state.next(Event::Hashed(Ok("hash".to_string())), &config());
    assert_eq!(action, Action::InsertUserWithSession(alice("hash"), session()));
    let (_, action) = state.next(Event::Stored { outcome: Ok(()), at: 1_000 }, &config());
    assert_eq!(action, Action::Answer(Ok(session_cookie(&config(), "u1", "s1", 1_000 + MONTH, 1_000))));
}

#[test]
fn registration_of_a_taken_name_ends() {
    let (state, _) = SignIn::register(form(), fresh());
    assert_eq!(
        state.next(Event::Found(Ok(Some(alice("hash")))), &config()),
        ended(ApiError::Unauthorized("username taken".to_string()))
    );
}

#[test]
fn failures_of_the_outside_end_the_call() {
    let (state, _) = SignIn::login(form(), fresh());
    assert_eq!(
        state.next(Event::Found(Err(StorageError::Unavailable)), &config()),
        ended(unexpected("error getting user by username"))
    );
    let (state, _) = SignIn::login(form(), fresh());
    let (state, _) = state.next(Event::Found(Ok(None)), &config());
    assert_eq!(
        state.next(Event::Hashed(Err(PasswordError::Hashing)), &config()),
        ended(unexpected("error hashing password"))
    );
    let (state, _) = SignIn::login(form(), fresh());
    let (state, _) = state.next(Event::Found(Ok(None)), &config());
    let (state, _) = state.next(Event::Hashed(Ok("h".to_string())), &config());
    assert_eq!(
        state.next(Event::Stored { outcome: Err(StorageError::Conflict), at: 0 }, &config()),
        ended(unexpected("error inserting user"))
    );
    let (state, _) = SignIn::login(form(), fresh());
    let (state, _) = state.next(Event::Found(Ok(Some(alice("h")))), &config());
    let (state, _) = state.next(Event::Verified(Ok(true)), &config());
    assert_eq!(
        state.next(Event::Stored { outcome: Err(StorageError::Unavailable), at: 0 }, &config()),
        ended(unexpected("error inserting session"))
    );
    let (state, _) = SignIn::register(form(), fresh());
    let (state, _) = state.next(Event::Found(Ok(None)), &config());
    let (state, _) = state.next(Event::Hashed(Ok("h".to_string())), &config());
    assert_eq!(
        state.next(Event::Stored { outcome: Err(StorageError::Conflict), at: 0 }, &config()),
        ended(unexpected("error inserting user with session"))
    );
}

#[test]
fn an_event_out_of_turn_ends_the_call() {
    let (state, _) = SignIn::login(form(), fresh());
    assert_eq!(state.next(Event::Verified(Ok(true)), &config()), ended(unexpected("event out of turn")));
    assert_eq!(
        SignIn::Done.next(Event::Found(Ok(None)), &config()),
        ended(unexpected("event out of turn"))
    );
    let (state, _) = SignIn::register(form(), fresh());
    let (state, _) = state.next(Event::Found(Ok(None)), &config());
    assert_eq!(
        state.next(Event::Stored { outcome: Ok(()), at: 0 }, &config()),
        ended(unexpected("event out of turn"))
    );
}

#[test]
fn perform_works_on_the_stores_in_memory() {
    let mut data = Data::new();
    assert_eq!(perform(&mut data, Action::FindUser("alice".to_string()), 7), Ok(Event::Found(Ok(None))));
    assert_eq!(
        perform(&mut data, Action::InsertUser(alice("h")), 7),
        Ok(Event::Stored { outcome: Ok(()), at: 7 })
    );
    assert_eq!(
        perform(&mut data, Action::InsertUser(alice("h")), 8),
        Ok(Event::Stored { outcome: Err(StorageError::Conflict), at: 8 })
    );
    assert_eq!(
        perform(&mut data, Action::FindUser("alice".to_string()), 7),
        Ok(Event::Found(Ok(Some(alice("h")))))
    );
    assert_eq!(
        perform(&mut data, Action::InsertSession(session()), 9),
        Ok(Event::Stored { outcome: Ok(()), at: 9 })
    );
    assert!(data.sessions.contains("s1"));
    assert_eq!(
        perform(&mut data, Action::InsertUserWithSession(alice("h"), session()), 9),
        Ok(Event::Stored { outcome: Err(StorageError::Conflict), at: 9 })
    );
    assert_eq!(
        perform(&mut data, Action::VerifyPassword { password: "pw".to_string(), hash: "junk".to_string() }, 0),
        Ok(Event::Verified(Err(PasswordError::MalformedHash)))
    );
    assert_eq!(perform(&mut data, Action::Answer(Ok("c".to_string())), 0), Err(Ok("c".to_string())));
}

#[test]
fn perform_hashes_the_password_it_is_given() {
    let mut data = Data::new();
    match perform(&mut data, Action::HashPassword("pw".to_string()), 0) {
        Ok(Event::Hashed(Ok(hash))) => {
            assert_ne!(hash, "pw");
            assert_eq!(
                perform(&mut data, Action::VerifyPassword { password: "pw".to_string(), hash }, 0),
                Ok(Event::Verified(Ok(true)))
            );
        }
        other => panic!("{:?}", other),
    }
}

#[test]
fn well_formed_means_the_expiry_can_be_told() {
    let (state, _) = SignIn::login(form(), fresh());
    assert!(state.well_formed());
    let late = Fresh { now: i64::MAX - MONTH + 1, ..fresh() };
    assert!(!SignIn::Finding { purpose: Purpose::Login, form: form(), fresh: late }.well_formed());
    let last = Fresh { now: i64::MAX - MONTH, ..fresh() };
    assert!(SignIn::Finding { purpose: Purpose::Login, form: form(), fresh: last }.well_formed());
    assert!(SignIn::Done.well_formed());
}

#[test]
fn run_serves_a_call_from_beginning_to_end() {
    let mut data = Data::new();
    let answered = Fresh { answered_at: 1_000, ..fresh() };
    let cookie = run(&mut data, &config(), Purpose::Register, form(), answered);
    assert_eq!(cookie, Ok(session_cookie(&config(), "u1", "s1", 1_000 + MONTH, 1_000)));
    assert!(data.sessions.contains("s1"));
    let again = Fresh { user_id: "u2".to_string(), session_id: "s2".to_string(), ..fresh() };
    assert_eq!(
        run(&mut data, &config(), Purpose::Register, form(), again),
        Err(ApiError::Unauthorized("username taken".to_string()))
    );
    let wrong = AuthForm { username: "alice".to_string(), password: "no".to_string() };
    let third = Fresh { user_id: "u3".to_string(), session_id: "s3".to_string(), ..fresh() };
    assert_eq!(
        run(&mut data, &config(), Purpose::Login, wrong, third),
        Err(ApiError::Unauthorized("invalid creds".to_string()))
    );
    assert!(!data.sessions.contains("s3"));
}
