use bookmark_sync::auth::password::{password_hash, PasswordError};
use bookmark_sync::auth::token::create_token;
use bookmark_sync::auth::user_id::{Auth, AuthData, UserId};
use bookmark_sync::config::Config;
use bookmark_sync::data::bookmarks::Bookmark;
use bookmark_sync::data::sessions::Session;
use bookmark_sync::data::users::User;
use bookmark_sync::data::Data;
use bookmark_sync::error::{ApiError, StorageError};
use bookmark_sync::handlers::{
    bootstrap_handler, bootstrap_response, broadcast_plan, login_handler, login_known, login_new,
    logout_handler, logout_response, me_handler, me_response, new_account, open_session, page_limit,
    password_decision, register_handler, register_new, session_cookie, sse_handler, start_session,
    stored, sync_handler, AuthForm, BootstrapRequest, BootstrapResponse, Fresh,
    MeResponse, SyncRequest, DEFAULT_PAGE_LIMIT,
};
use bookmark_sync::hub::{Delivery, Hub, SyncMessage};

const MONTH: i64 = 2_592_000_000_000;

fn config() -> Config {
    Config {
        database_url: "postgres://db".to_string(),
        front_url: "http://front".to_string(),
        secret: "secret".to_string(),
        is_prod: false,
    }
}

fn bookmark(id: &str, updated_at: i64) -> Bookmark {
    Bookmark {
        id: id.to_string(),
        title: "x".to_string(),
        url: "http://x".to_string(),
        created_at: updated_at,
        updated_at,
        deleted_at: None,
    }
}

fn form(username: &str, password: &str) -> AuthForm {
    AuthForm { username: username.to_string(), password: password.to_string() }
}

fn fresh(user_id: &str, session_id: &str) -> Fresh {
    Fresh {
        user_id: user_id.to_string(),
        session_id: session_id.to_string(),
        now: 1_000_000,
        answered_at: 1_000_001,
    }
}

fn unexpected(text: &str) -> ApiError {
    ApiError::UnexpectedError(text.to_string())
}

fn unauthorized(text: &str) -> ApiError {
    ApiError::Unauthorized(text.to_string())
}

fn cookie_for(user: &str, session: &str, max_age: i64) -> String {
    format!(
        "auth={}; Path=/; Max-Age={}; SameSite=Lax; HttpOnly;",
        create_token("secret", user, session),
        max_age
    )
}

#[test]
fn page_limit_defaults_to_a_hundred() {
    assert_eq!(DEFAULT_PAGE_LIMIT, 100);
    assert_eq!(page_limit(None), 100);
    assert_eq!(page_limit(Some(7)), 7);
    assert_eq!(page_limit(Some(-1)), -1);
}

#[test]
fn broadcast_plan_after_a_good_write() {
    let batch = vec![bookmark("2", 1), bookmark("1", 2)];
    assert_eq!(
        broadcast_plan("u", &batch, Ok(())),
        Ok(vec![
            SyncMessage { user_id: "u".to_string(), bookmark: bookmark("2", 1) },
            SyncMessage { user_id: "u".to_string(), bookmark: bookmark("1", 2) },
        ])
    );
    assert_eq!(broadcast_plan("u", &vec![], Ok(())), Ok(vec![]));
}

#[test]
fn broadcast_plan_after_a_failed_write() {
    let batch = vec![bookmark("2", 1), bookmark("1", 2)];
    assert_eq!(
        broadcast_plan("u", &batch, Err(StorageError::Unavailable)),
        Err(unexpected("error upserting bookmarks"))
    );
    assert_eq!(
        broadcast_plan("u", &batch, Err(StorageError::Conflict)),
        Err(unexpected("error upserting bookmarks"))
    );
}

#[test]
fn sync_writes_then_broadcasts_in_order() {
    let mut hub = Hub::new();
    let mut data = Data::new();
    let mut own = hub.subscribe("alice".to_string());
    let mut other = hub.subscribe("bob".to_string());
    let req = SyncRequest { bookmarks: vec![bookmark("2", 5), bookmark("1", 6)] };
    assert_eq!(sync_handler(&mut hub, &mut data, &UserId("alice".to_string()), req), Ok(()));
    assert_eq!(
        data.bookmarks.get_all("alice", 0, None, 10),
        Ok(vec![bookmark("1", 6), bookmark("2", 5)])
    );
    assert_eq!(own.try_next(), Delivery::Event(bookmark("2", 5)));
    assert_eq!(own.try_next(), Delivery::Event(bookmark("1", 6)));
    assert_eq!(own.try_next(), Delivery::Idle);
    assert_eq!(other.try_next(), Delivery::Skipped);
    assert_eq!(other.try_next(), Delivery::Skipped);
    assert_eq!(other.try_next(), Delivery::Idle);
}

#[test]
fn resubmitting_changes_nothing_but_is_broadcast_again() {
    let mut hub = Hub::new();
    let mut data = Data::new();
    let user = UserId("alice".to_string());
    sync_handler(&mut hub, &mut data, &user, SyncRequest { bookmarks: vec![bookmark("1", 6)] }).unwrap();
    let before = data.bookmarks.get_all("alice", i64::MIN, None, 10).unwrap();
    let mut live = hub.subscribe("alice".to_string());
    sync_handler(&mut hub, &mut data, &user, SyncRequest { bookmarks: vec![bookmark("1", 6)] }).unwrap();
    assert_eq!(data.bookmarks.get_all("alice", i64::MIN, None, 10).unwrap(), before);
    assert_eq!(live.try_next(), Delivery::Event(bookmark("1", 6)));
}

#[test]
fn what_is_broadcast_was_committed() {
    let mut hub = Hub::new();
    let mut data = Data::new();
    let mut live = hub.subscribe("alice".to_string());
    let batch = vec![bookmark("a", 10), bookmark("b", 20), bookmark("c", 30)];
    sync_handler(&mut hub, &mut data, &UserId("alice".to_string()), SyncRequest { bookmarks: batch })
        .unwrap();
    while let Delivery::Event(seen) = live.try_next() {
        let page = data.bookmarks.get_all("alice", seen.updated_at - 1, None, 100).unwrap();
        assert!(page.contains(&seen));
    }
}

#[test]
fn empty_sync_is_fine() {
    let mut hub = Hub::new();
    let mut data = Data::new();
    let mut live = hub.subscribe("alice".to_string());
    assert_eq!(
        sync_handler(&mut hub, &mut data, &UserId("alice".to_string()), SyncRequest { bookmarks: vec![] }),
        Ok(())
    );
    assert_eq!(data.bookmarks.len(), 0);
    assert_eq!(live.try_next(), Delivery::Idle);
}

#[test]
fn bootstrap_response_cases() {
    assert_eq!(
        bootstrap_response(Ok(vec![bookmark("a", 1), bookmark("b", 1)]), 2),
        Ok(BootstrapResponse {
            bookmarks: vec![bookmark("a", 1), bookmark("b", 1)],
            next_cursor: Some("b".to_string()),
        })
    );
    assert_eq!(
        bootstrap_response(Ok(vec![bookmark("a", 1)]), 2),
        Ok(BootstrapResponse { bookmarks: vec![bookmark("a", 1)], next_cursor: None })
    );
    assert_eq!(
        bootstrap_response(Ok(vec![]), 0),
        Ok(BootstrapResponse { bookmarks: vec![], next_cursor: None })
    );
    assert_eq!(
        bootstrap_response(Err(StorageError::Unavailable), 2),
        Err(unexpected("error getting bookmarks"))
    );
}

#[test]
fn bootstrap_pages_through() {
    let mut data = Data::new();
    for id in ["a", "b", "c"] {
        data.bookmarks.upsert("alice", &bookmark(id, 10)).unwrap();
    }
    let user = UserId("alice".to_string());
    let first = bootstrap_handler(
        &data,
        &user,
        &BootstrapRequest { cursor: None, limit: Some(2), from: 0 },
    );
    assert_eq!(
        first,
        Ok(BootstrapResponse {
            bookmarks: vec![bookmark("a", 10), bookmark("b", 10)],
            next_cursor: Some("b".to_string()),
        })
    );
    let second = bootstrap_handler(
        &data,
        &user,
        &BootstrapRequest { cursor: Some("b".to_string()), limit: Some(2), from: 0 },
    );
    assert_eq!(second, Ok(BootstrapResponse { bookmarks: vec![bookmark("c", 10)], next_cursor: None }));
}

#[test]
fn bootstrap_uses_the_default_limit() {
    let mut data = Data::new();
    for n in 0..150 {
        data.bookmarks.upsert("alice", &bookmark(&format!("{:03}", n), 10)).unwrap();
    }
    let page = bootstrap_handler(
        &data,
        &UserId("alice".to_string()),
        &BootstrapRequest { cursor: None, limit: None, from: 0 },
    )
    .unwrap();
    assert_eq!(page.bookmarks.len(), 100);
    assert_eq!(page.next_cursor, Some("099".to_string()));
}

#[test]
fn bootstrap_with_negative_limit_fails() {
    let data = Data::new();
    assert_eq!(
        bootstrap_handler(
            &data,
            &UserId("alice".to_string()),
            &BootstrapRequest { cursor: None, limit: Some(-5), from: 0 },
        ),
        Err(unexpected("error getting bookmarks"))
    );
}

#[test]
fn bootstrap_of_unknown_user_is_empty() {
    let data = Data::new();
    assert_eq!(
        bootstrap_handler(
            &data,
            &UserId("nobody".to_string()),
            &BootstrapRequest { cursor: None, limit: None, from: 0 },
        ),
        Ok(BootstrapResponse { bookmarks: vec![], next_cursor: None })
    );
}

#[test]
fn sse_handler_subscribes_for_the_user() {
    let mut hub = Hub::new();
    let mut live = sse_handler(&hub, UserId("alice".to_string()));
    hub.publish(SyncMessage { user_id: "bob".to_string(), bookmark: bookmark("1", 1) });
    hub.publish(SyncMessage { user_id: "alice".to_string(), bookmark: bookmark("2", 1) });
    assert_eq!(live.try_next(), Delivery::Skipped);
    assert_eq!(live.try_next(), Delivery::Event(bookmark("2", 1)));
}

#[test]
fn me_response_cases() {
    let user = User { id: "1".to_string(), username: "alice".to_string(), password_hash: "h".to_string() };
    assert_eq!(
        me_response(Ok(Some(user))),
        Ok(MeResponse { id: "1".to_string(), username: "alice".to_string() })
    );
    assert_eq!(me_response(Ok(None)), Err(unauthorized("user not found")));
    assert_eq!(me_response(Err(StorageError::Unavailable)), Err(unexpected("error getting user")));
}

#[test]
fn me_handler_reads_the_user_store() {
    let mut data = Data::new();
    data.users
        .insert(&User { id: "1".to_string(), username: "alice".to_string(), password_hash: "h".to_string() })
        .unwrap();
    assert_eq!(
        me_handler(&data, &UserId("1".to_string())),
        Ok(MeResponse { id: "1".to_string(), username: "alice".to_string() })
    );
    assert_eq!(me_handler(&data, &UserId("2".to_string())), Err(unauthorized("user not found")));
}

#[test]
fn logout_response_cases() {
    assert_eq!(
        logout_response(Ok(()), false),
        Ok("auth=; Path=/; Max-Age=0; SameSite=Lax; HttpOnly;".to_string())
    );
    assert_eq!(
        logout_response(Ok(()), true),
        Ok("auth=; Path=/; Max-Age=0; SameSite=Lax; HttpOnly; Secure;".to_string())
    );
    assert_eq!(
        logout_response(Err(StorageError::Unavailable), false),
        Err(unexpected("error deleting session"))
    );
}

#[test]
fn logout_deletes_the_session() {
    let mut data = Data::new();
    data.sessions
        .insert(&Session { id: "s1".to_string(), user_id: "u1".to_string(), expiry: None })
        .unwrap();
    let auth = Auth(AuthData { user_id: "u1".to_string(), session_id: "s1".to_string() });
    assert_eq!(
        logout_handler(&mut data, &auth, false),
        Ok("auth=; Path=/; Max-Age=0; SameSite=Lax; HttpOnly;".to_string())
    );
    assert_eq!(data.sessions.get("u1", "s1"), Ok(None));
}

#[test]
fn open_session_lasts_thirty_days() {
    assert_eq!(
        open_session("u1", "s1".to_string(), 1_000),
        Session { id: "s1".to_string(), user_id: "u1".to_string(), expiry: Some(1_000 + MONTH) }
    );
}

#[test]
fn session_cookie_carries_the_issued_token() {
    assert_eq!(session_cookie(&config(), "u1", "s1", 61_000_000, 1_000_000), cookie_for("u1", "s1", 60));
    let prod = Config { is_prod: true, ..config() };
    assert_eq!(
        session_cookie(&prod, "u1", "s1", 61_000_000, 1_000_000),
        format!("{} Secure;", cookie_for("u1", "s1", 60))
    );
}

#[test]
fn password_decision_cases() {
    assert_eq!(password_decision(Ok(true)), Ok(()));
    assert_eq!(password_decision(Ok(false)), Err(unauthorized("invalid creds")));
    assert_eq!(
        password_decision(Err(PasswordError::MalformedHash)),
        Err(unexpected("error verifying password"))
    );
}

#[test]
fn new_account_cases() {
    assert_eq!(
        new_account("1".to_string(), "alice".to_string(), Ok("h".to_string())),
        Ok(User { id: "1".to_string(), username: "alice".to_string(), password_hash: "h".to_string() })
    );
    assert_eq!(
        new_account("1".to_string(), "alice".to_string(), Err(PasswordError::Hashing)),
        Err(unexpected("error hashing password"))
    );
}

#[test]
fn stored_names_the_failed_step() {
    assert_eq!(stored(Ok(()), "error inserting user"), Ok(()));
    assert_eq!(stored(Err(StorageError::Conflict), "error inserting user"), Err(unexpected("error inserting user")));
}

#[test]
fn start_session_stores_and_answers() {
    let mut data = Data::new();
    let cookie = start_session(&mut data, &config(), "u1", "s1".to_string(), 1_000_000, 2_500_000);
    assert_eq!(cookie, Ok(cookie_for("u1", "s1", 2_591_998)));
    assert_eq!(
        data.sessions.get("u1", "s1"),
        Ok(Some(Session { id: "s1".to_string(), user_id: "u1".to_string(), expiry: Some(1_000_000 + MONTH) }))
    );
    assert_eq!(
        start_session(&mut data, &config(), "u2", "s1".to_string(), 1_000_000, 1_000_000),
        Err(unexpected("error inserting session"))
    );
    assert_eq!(data.sessions.get("u2", "s1"), Ok(None));
}

#[test]
fn login_known_cases() {
    let user = User { id: "1".to_string(), username: "alice".to_string(), password_hash: "h".to_string() };
    let mut data = Data::new();
    assert_eq!(
        login_known(&mut data, &config(), &user, Ok(false), "s1".to_string(), 0, 0),
        Err(unauthorized("invalid creds"))
    );
    assert_eq!(
        login_known(&mut data, &config(), &user, Err(PasswordError::MalformedHash), "s1".to_string(), 0, 0),
        Err(unexpected("error verifying password"))
    );
    assert!(!data.sessions.contains("s1"));
    assert_eq!(
        login_known(&mut data, &config(), &user, Ok(true), "s1".to_string(), 0, 0),
        Ok(cookie_for("1", "s1", 2_592_000))
    );
    assert!(data.sessions.contains("s1"));
}

#[test]
fn login_new_cases() {
    let mut data = Data::new();
    assert_eq!(
        login_new(&mut data, &config(), "alice".to_string(), Err(PasswordError::Hashing), fresh("1", "s1")),
        Err(unexpected("error hashing password"))
    );
    assert_eq!(data.users.get("1"), Ok(None));
    assert_eq!(
        login_new(&mut data, &config(), "alice".to_string(), Ok("h".to_string()), fresh("1", "s1")),
        Ok(cookie_for("1", "s1", 2_591_999))
    );
    assert_eq!(
        data.users.get("1"),
        Ok(Some(User { id: "1".to_string(), username: "alice".to_string(), password_hash: "h".to_string() }))
    );
    assert_eq!(
        login_new(&mut data, &config(), "bob".to_string(), Ok("h".to_string()), fresh("1", "s2")),
        Err(unexpected("error inserting user"))
    );
    assert_eq!(
        login_new(&mut data, &config(), "bob".to_string(), Ok("h".to_string()), fresh("2", "s1")),
        Err(unexpected("error inserting session"))
    );
    assert_eq!(data.users.get_by_username("bob").unwrap().map(|u| u.id), Some("2".to_string()));
}

#[test]
fn register_new_cases() {
    let mut data = Data::new();
    assert_eq!(
        register_new(&mut data, &config(), "alice".to_string(), Err(PasswordError::Hashing), fresh("1", "s1")),
        Err(unexpected("error hashing password"))
    );
    assert_eq!(
        register_new(&mut data, &config(), "alice".to_string(), Ok("h".to_string()), fresh("1", "s1")),
        Ok(cookie_for("1", "s1", 2_591_999))
    );
    assert_eq!(
        register_new(&mut data, &config(), "bob".to_string(), Ok("h".to_string()), fresh("2", "s1")),
        Err(unexpected("error inserting user with session"))
    );
    assert_eq!(data.users.get_by_username("bob"), Ok(None));
    assert_eq!(
        register_new(&mut data, &config(), "bob".to_string(), Ok("h".to_string()), fresh("1", "s2")),
        Err(unexpected("error inserting user with session"))
    );
    assert!(!data.sessions.contains("s2"));
}

#[test]
fn register_then_login() {
    let mut data = Data::new();
    let registered = register_handler(&mut data, &config(), form("alice", "pw"), fresh("1", "s1"));
    assert_eq!(registered, Ok(cookie_for("1", "s1", 2_591_999)));
    let stored_user = data.users.get_by_username("alice").unwrap().unwrap();
    assert_eq!(stored_user.id, "1");
    assert_ne!(stored_user.password_hash, "pw");
    assert_eq!(
        login_handler(&mut data, &config(), form("alice", "pw"), fresh("9", "s2")),
        Ok(cookie_for("1", "s2", 2_591_999))
    );
    assert_eq!(data.sessions.get("1", "s2").unwrap().map(|s| s.expiry), Some(Some(1_000_000 + MONTH)));
    assert_eq!(data.users.get("9"), Ok(None));
}

#[test]
fn login_with_wrong_password_changes_nothing() {
    let mut data = Data::new();
    register_handler(&mut data, &config(), form("alice", "pw"), fresh("1", "s1")).unwrap();
    assert_eq!(
        login_handler(&mut data, &config(), form("alice", "nope"), fresh("9", "s2")),
        Err(unauthorized("invalid creds"))
    );
    assert!(!data.sessions.contains("s2"));
}

#[test]
fn login_with_unreadable_stored_hash() {
    let mut data = Data::new();
    data.users
        .insert(&User { id: "1".to_string(), username: "alice".to_string(), password_hash: "junk".to_string() })
        .unwrap();
    assert_eq!(
        login_handler(&mut data, &config(), form("alice", "pw"), fresh("9", "s2")),
        Err(unexpected("error verifying password"))
    );
}

#[test]
fn login_under_a_new_name_creates_the_account() {
    let mut data = Data::new();
    assert_eq!(
        login_handler(&mut data, &config(), form("carol", "pw"), fresh("3", "s3")),
        Ok(cookie_for("3", "s3", 2_591_999))
    );
    assert_eq!(data.users.get("3").unwrap().map(|u| u.username), Some("carol".to_string()));
    assert!(data.sessions.contains("s3"));
}

#[test]
fn register_twice_is_turned_down() {
    let mut data = Data::new();
    register_handler(&mut data, &config(), form("alice", "pw"), fresh("1", "s1")).unwrap();
    assert_eq!(
        register_handler(&mut data, &config(), form("alice", "other"), fresh("2", "s2")),
        Err(unauthorized("username taken"))
    );
    assert_eq!(data.users.get("2"), Ok(None));
    assert!(!data.sessions.contains("s2"));
}

#[test]
fn stored_hash_verifies_the_password() {
    let hash = password_hash("pw").unwrap();
    let user = User { id: "1".to_string(), username: "alice".to_string(), password_hash: hash };
    let mut data = Data::new();
    data.users.insert(&user).unwrap();
    assert!(login_handler(&mut data, &config(), form("alice", "pw"), fresh("9", "s2")).is_ok());
}

#[test]
fn a_bookmark_overwritten_in_its_batch_is_read_as_its_last_version() {
    let mut hub = Hub::new();
    let mut data = Data::new();
    let mut live = hub.subscribe("alice".to_string());
    let batch = vec![bookmark("1", 10), bookmark("1", 5), bookmark("1", 12)];
    sync_handler(&mut hub, &mut data, &UserId("alice".to_string()), SyncRequest { bookmarks: batch })
        .unwrap();
    assert_eq!(live.try_next(), Delivery::Event(bookmark("1", 10)));
    let last = Bookmark { created_at: 10, ..bookmark("1", 12) };
    assert_eq!(data.bookmarks.get_all("alice", 9, None, 100), Ok(vec![last.clone()]));
    assert_eq!(data.bookmarks.get_all("alice", 11, None, 100), Ok(vec![last]));
}

#[test]
fn a_bookmark_last_written_older_is_the_one_case_left_out() {
    let mut hub = Hub::new();
    let mut data = Data::new();
    let batch = vec![bookmark("1", 10), bookmark("1", 5)];
    sync_handler(&mut hub, &mut data, &UserId("alice".to_string()), SyncRequest { bookmarks: batch })
        .unwrap();
    assert_eq!(data.bookmarks.get_all("alice", 7, None, 100), Ok(vec![]));
    assert_eq!(
        data.bookmarks.get_all("alice", 4, None, 100),
        Ok(vec![Bookmark { created_at: 10, ..bookmark("1", 5) }])
    );
}
