use bookmark_sync::auth::cookie::{
    create_empty_session_cookie, create_session_cookie, format_session_cookie, SESSION_COOKIE_NAME,
};
use bookmark_sync::time::{session_expiry, whole_seconds_until, SESSION_LIFETIME, SESSION_LIFETIME_SECS};

#[test]
fn cookie_name() {
    assert_eq!(SESSION_COOKIE_NAME, "auth");
}

#[test]
fn empty_cookie() {
    assert_eq!(
        create_empty_session_cookie(false),
        "auth=; Path=/; Max-Age=0; SameSite=Lax; HttpOnly;"
    );
    assert_eq!(
        create_empty_session_cookie(true),
        "auth=; Path=/; Max-Age=0; SameSite=Lax; HttpOnly; Secure;"
    );
}

#[test]
fn session_cookie_counts_whole_seconds() {
    assert_eq!(
        create_session_cookie("tok", 61_500_000, 1_000_000, false),
        "auth=tok; Path=/; Max-Age=60; SameSite=Lax; HttpOnly;"
    );
    assert_eq!(
        create_session_cookie("tok", 61_500_000, 1_000_000, true),
        "auth=tok; Path=/; Max-Age=60; SameSite=Lax; HttpOnly; Secure;"
    );
}

#[test]
fn session_cookie_of_a_past_expiry() {
    assert_eq!(
        create_session_cookie("t", 0, 1_500_000, false),
        "auth=t; Path=/; Max-Age=-1; SameSite=Lax; HttpOnly;"
    );
    assert_eq!(
        create_session_cookie("t", 0, 999_999, false),
        "auth=t; Path=/; Max-Age=0; SameSite=Lax; HttpOnly;"
    );
}

#[test]
fn session_cookie_at_the_limits() {
    assert_eq!(
        create_session_cookie("t", i64::MAX, i64::MIN, false),
        "auth=t; Path=/; Max-Age=18446744073709; SameSite=Lax; HttpOnly;"
    );
    assert_eq!(
        create_session_cookie("t", i64::MIN, i64::MAX, false),
        "auth=t; Path=/; Max-Age=-18446744073709; SameSite=Lax; HttpOnly;"
    );
}

#[test]
fn format_cookie_with_given_age() {
    assert_eq!(
        format_session_cookie("a.b:c", 2592000, false),
        "auth=a.b:c; Path=/; Max-Age=2592000; SameSite=Lax; HttpOnly;"
    );
}

#[test]
fn whole_seconds_round_towards_zero() {
    assert_eq!(whole_seconds_until(0, 2_999_999), 2);
    assert_eq!(whole_seconds_until(2_999_999, 0), -2);
    assert_eq!(whole_seconds_until(5, 5), 0);
    assert_eq!(whole_seconds_until(0, 1_000_000), 1);
}

#[test]
fn session_lasts_thirty_days() {
    assert_eq!(SESSION_LIFETIME_SECS, 60 * 60 * 24 * 30);
    assert_eq!(SESSION_LIFETIME, 60 * 60 * 24 * 30 * 1_000_000);
    assert_eq!(session_expiry(1_000), Some(1_000 + 2_592_000_000_000));
    assert_eq!(session_expiry(i64::MAX), None);
    assert_eq!(session_expiry(i64::MAX - SESSION_LIFETIME), Some(i64::MAX));
}
