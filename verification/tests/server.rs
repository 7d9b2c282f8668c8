use bookmark_sync::auth::user_id::CookieHeader;
use bookmark_sync::config::Config;
use bookmark_sync::data::bookmarks::Bookmark;
use bookmark_sync::error::ApiError;
use bookmark_sync::handlers::{
    AuthForm, BootstrapRequest, BootstrapResponse, Fresh, MeResponse, SyncRequest,
};
use bookmark_sync::hub::Delivery;
use bookmark_sync::server::Server;

const T0: i64 = 1_000;
const T1: i64 = 2_000;
const T2: i64 = 3_000;

fn server() -> Server {
    Server::new(Config {
        database_url: String::new(),
        front_url: "http://localhost".to_string(),
        secret: "s3cr3t".to_string(),
        is_prod: false,
    })
}

fn fresh(user_id: &str, session_id: &str) -> Fresh {
    Fresh { user_id: user_id.to_string(), session_id: session_id.to_string(), now: 0, answered_at: 0 }
}

fn header_of(set_cookie: &str) -> CookieHeader {
    let pair = set_cookie.split(';').next().unwrap();
    let (name, value) = pair.split_once('=').unwrap();
    CookieHeader::Cookies(vec![(name.to_string(), value.to_string())])
}

fn register(server: &mut Server, name: &str, user_id: &str, session_id: &str) -> CookieHeader {
    let cookie = server
        .register(
            AuthForm { username: name.to_string(), password: "pw".to_string() },
            fresh(user_id, session_id),
        )
        .unwrap();
    header_of(&cookie)
}

fn x(updated_at: i64, deleted_at: Option<i64>) -> Bookmark {
    Bookmark {
        id: "1".to_string(),
        title: "x".to_string(),
        url: "http://x".to_string(),
        created_at: T1,
        updated_at,
        deleted_at,
    }
}

fn read(server: &Server, header: &CookieHeader, from: i64) -> Result<BootstrapResponse, ApiError> {
    server.bootstrap(header, &BootstrapRequest { cursor: None, limit: None, from })
}

#[test]
fn register_sync_bootstrap() {
    let mut server = server();
    let alice = register(&mut server, "alice", "u-alice", "s-1");
    assert_eq!(server.sync(&alice, SyncRequest { bookmarks: vec![x(T1, None)] }), Ok(()));
    assert_eq!(
        read(&server, &alice, T0),
        Ok(BootstrapResponse { bookmarks: vec![x(T1, None)], next_cursor: None })
    );
}

#[test]
fn deleted_bookmark_is_returned_as_tombstone() {
    let mut server = server();
    let alice = register(&mut server, "alice", "u-alice", "s-1");
    server.sync(&alice, SyncRequest { bookmarks: vec![x(T1, None)] }).unwrap();
    server.sync(&alice, SyncRequest { bookmarks: vec![x(T2, Some(T2))] }).unwrap();
    assert_eq!(
        read(&server, &alice, T1),
        Ok(BootstrapResponse { bookmarks: vec![x(T2, Some(T2))], next_cursor: None })
    );
}

#[test]
fn bootstrap_from_the_modification_time_itself_is_empty() {
    let mut server = server();
    let alice = register(&mut server, "alice", "u-alice", "s-1");
    server.sync(&alice, SyncRequest { bookmarks: vec![x(T1, None)] }).unwrap();
    assert_eq!(read(&server, &alice, T1), Ok(BootstrapResponse { bookmarks: vec![], next_cursor: None }));
}

#[test]
fn unauthenticated_requests_touch_nothing() {
    let mut server = server();
    let alice = register(&mut server, "alice", "u-alice", "s-1");
    let mut live = server.events(&alice).ok().unwrap();
    let no_cookie = Err(ApiError::Unauthorized("no cookie".to_string()));
    assert_eq!(server.sync(&CookieHeader::Missing, SyncRequest { bookmarks: vec![x(T1, None)] }), no_cookie);
    let forged = CookieHeader::Cookies(vec![(
        "auth".to_string(),
        "u-alice.s-1:0000000000000000000000000000000000000000000000000000000000000000".to_string(),
    )]);
    assert_eq!(
        server.sync(&forged, SyncRequest { bookmarks: vec![x(T1, None)] }),
        Err(ApiError::Unauthorized("invalid auth".to_string()))
    );
    assert_eq!(server.data.bookmarks.len(), 0);
    assert_eq!(live.try_next(), Delivery::Idle);
    assert_eq!(read(&server, &CookieHeader::Missing, T0), Err(ApiError::Unauthorized("no cookie".to_string())));
    assert!(server.events(&CookieHeader::Missing).is_err());
    assert_eq!(server.me(&forged), Err(ApiError::Unauthorized("invalid auth".to_string())));
    assert_eq!(server.logout(&CookieHeader::Invalid), Err(ApiError::UnexpectedError("error getting cookies".to_string())));
}

#[test]
fn live_stream_shows_changes_of_other_sessions_of_the_user() {
    let mut server = server();
    let phone = register(&mut server, "alice", "u-alice", "s-1");
    let laptop_cookie = server
        .login(AuthForm { username: "alice".to_string(), password: "pw".to_string() }, fresh("-", "s-2"))
        .unwrap();
    let laptop = header_of(&laptop_cookie);
    let bob = register(&mut server, "bob", "u-bob", "s-3");
    let mut on_laptop = server.events(&laptop).ok().unwrap();
    let mut on_phone = server.events(&phone).ok().unwrap();
    let mut at_bob = server.events(&bob).ok().unwrap();
    server.sync(&phone, SyncRequest { bookmarks: vec![x(T1, None)] }).unwrap();
    assert_eq!(on_laptop.try_next(), Delivery::Event(x(T1, None)));
    assert_eq!(on_phone.try_next(), Delivery::Event(x(T1, None)));
    assert_eq!(at_bob.try_next(), Delivery::Skipped);
    assert_eq!(at_bob.try_next(), Delivery::Idle);
    assert_eq!(read(&server, &bob, T0), Ok(BootstrapResponse { bookmarks: vec![], next_cursor: None }));
    assert_eq!(
        read(&server, &laptop, T0),
        Ok(BootstrapResponse { bookmarks: vec![x(T1, None)], next_cursor: None })
    );
}

#[test]
fn me_and_logout() {
    let mut server = server();
    let alice = register(&mut server, "alice", "u-alice", "s-1");
    assert_eq!(
        server.me(&alice),
        Ok(MeResponse { id: "u-alice".to_string(), username: "alice".to_string() })
    );
    assert_eq!(
        server.logout(&alice),
        Ok("auth=; Path=/; Max-Age=0; SameSite=Lax; HttpOnly;".to_string())
    );
    assert_eq!(server.me(&alice), Err(ApiError::Unauthorized("no session".to_string())));
    assert_eq!(
        server.sync(&alice, SyncRequest { bookmarks: vec![x(T1, None)] }),
        Err(ApiError::Unauthorized("no session".to_string()))
    );
}

#[test]
fn catch_up_after_missing_the_live_stream() {
    let mut server = server();
    let alice = register(&mut server, "alice", "u-alice", "s-1");
    let batch: Vec<Bookmark> = (0..5)
        .map(|n| Bookmark { id: format!("b{}", n), ..x(T1 + n, None) })
        .collect();
    server.sync(&alice, SyncRequest { bookmarks: batch.clone() }).unwrap();
    let mut cursor = None;
    let mut seen = Vec::new();
    loop {
        let page = server
            .bootstrap(&alice, &BootstrapRequest { cursor, limit: Some(2), from: T0 })
            .unwrap();
        seen.extend(page.bookmarks);
        cursor = page.next_cursor;
        if cursor.is_none() {
            break;
        }
    }
    assert_eq!(seen, batch);
}
