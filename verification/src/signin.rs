//! Signing in and registering, step by step. Both take several calls to the
//! outside: the user store, the password hasher, the session store. The
//! order of those calls is decided here: [`SignIn`] is where a call stands,
//! each step takes what the outside answered last, an [`Event`], and says
//! what is to be done next, an [`Action`]. Whoever serves the call does what
//! the action says, hands back the event, and so on until the action is the
//! answer. [`perform`] does so on the stores in memory; a server with stores
//! behind a network does the same with its own.

use crate::auth::password::{
    argon2_verdict, password_hash, password_verify, verify_outcome, PasswordError,
};
use crate::config::Config;
use crate::data::sessions::Session;
use crate::data::users::{user_conflicts, User};
use crate::data::Data;
use crate::data::table::find;
use crate::error::{text_result_view, ApiError, ApiErrorView, StorageError};
use crate::handlers::{
    hashed_view, hashing_outcome, login_known_spec, login_new_spec, new_account, open_session,
    opened_session, password_decision, register_new_spec, session_cookie, session_cookie_value,
    with_session, with_user, AuthForm, DataView, Fresh,
};
use crate::time::{Timestamp, SESSION_LIFETIME};
use vstd::prelude::*;

verus! {

/// Which of the two calls is being served.
#[derive(Clone, Copy, Debug, PartialEq, Eq, Structural)]
pub enum Purpose {
    Login,
    Register,
}

/// Where a call stands: what it waits for, and what it has to remember
/// until then.
#[derive(Debug, PartialEq, Eq)]
pub enum SignIn {
    /// The user store was asked for the account of the user name.
    Finding { purpose: Purpose, form: AuthForm, fresh: Fresh },
    /// The typed password is being checked against the account's hash.
    Verifying { user_id: String, session_id: String, now: Timestamp },
    /// The typed password is being hashed for a new account.
    Hashing { purpose: Purpose, username: String, fresh: Fresh },
    /// The new account of a sign-in is being stored.
    InsertingUser { user_id: String, session_id: String, now: Timestamp },
    /// The session is being stored, with its account where the call is a
    /// registration.
    Storing { purpose: Purpose, user_id: String, session_id: String, now: Timestamp },
    /// The call was answered.
    Done,
}

/// What the outside answered.
#[derive(Debug, PartialEq, Eq)]
pub enum Event {
    /// What the user store found under the user name.
    Found(Result<Option<User>, StorageError>),
    /// What the password check said.
    Verified(Result<bool, PasswordError>),
    /// What hashing the password gave.
    Hashed(Result<String, PasswordError>),
    /// How a write to a store ended, and the instant at which it had ended.
    Stored { outcome: Result<(), StorageError>, at: Timestamp },
}

/// What is to be done next.
#[derive(Debug, PartialEq, Eq)]
pub enum Action {
    /// Ask the user store for the account with this user name.
    FindUser(String),
    /// Check the password against the hash.
    VerifyPassword { password: String, hash: String },
    /// Hash the password.
    HashPassword(String),
    /// Store the account.
    InsertUser(User),
    /// Store the session.
    InsertSession(Session),
    /// Store the account and the session, both or neither.
    InsertUserWithSession(User, Session),
    /// Answer the call: with the cookie that carries the session, or with
    /// the error.
    Answer(Result<String, ApiError>),
}

impl SignIn {
    /// The session that is opened will not run out beyond the last instant
    /// that can be told.
    pub open spec fn wf(self) -> bool {
        match self {
            SignIn::Finding { purpose, form, fresh } => fresh.now + SESSION_LIFETIME <= i64::MAX,
            SignIn::Verifying { user_id, session_id, now } => now + SESSION_LIFETIME <= i64::MAX,
            SignIn::Hashing { purpose, username, fresh } => fresh.now + SESSION_LIFETIME <= i64::MAX,
            SignIn::InsertingUser { user_id, session_id, now } => now + SESSION_LIFETIME
                <= i64::MAX,
            SignIn::Storing { purpose, user_id, session_id, now } => now + SESSION_LIFETIME
                <= i64::MAX,
            SignIn::Done => true,
        }
    }
}

/// The call ends with this error.
pub open spec fn ends(next: SignIn, action: Action, error: ApiErrorView) -> bool {
    next is Done && (action matches Action::Answer(Err(e)) && e@ == error)
}

/// The call goes on to store the session of the user.
pub open spec fn goes_to_store_session(
    next: SignIn,
    action: Action,
    user_id: Seq<char>,
    session_id: Seq<char>,
    now: i64,
) -> bool {
    &&& next matches SignIn::Storing { purpose, user_id: u, session_id: s, now: n } && purpose
        == Purpose::Login && u@ == user_id && s@ == session_id && n == now
    &&& action matches Action::InsertSession(session) && session@ == opened_session(
        user_id,
        session_id,
        now,
    )
}

/// What follows once the user store has answered.
pub open spec fn after_finding(
    purpose: Purpose,
    form: AuthForm,
    fresh: Fresh,
    found: Result<Option<User>, StorageError>,
    next: SignIn,
    action: Action,
) -> bool {
    match found {
        Err(_) => ends(next, action, ApiErrorView::UnexpectedError("error getting user by username"@)),
        Ok(Some(user)) => match purpose {
            Purpose::Register => ends(next, action, ApiErrorView::Unauthorized("username taken"@)),
            Purpose::Login => {
                &&& next matches SignIn::Verifying { user_id, session_id, now } && user_id@
                    == user.id@ && session_id@ == fresh.session_id@ && now == fresh.now
                &&& action matches Action::VerifyPassword { password, hash } && password@
                    == form.password@ && hash@ == user.password_hash@
            },
        },
        Ok(None) => {
            &&& next matches SignIn::Hashing { purpose: p, username, fresh: f } && p == purpose
                && username@ == form.username@ && f.user_id@ == fresh.user_id@ && f.session_id@
                == fresh.session_id@ && f.now == fresh.now
            &&& action matches Action::HashPassword(password) && password@ == form.password@
        },
    }
}

/// What follows once the password has been checked.
pub open spec fn after_verifying(
    user_id: Seq<char>,
    session_id: Seq<char>,
    now: i64,
    verdict: Result<bool, PasswordError>,
    next: SignIn,
    action: Action,
) -> bool {
    match crate::handlers::password_decision_spec(verdict) {
        Err(e) => ends(next, action, e),
        Ok(()) => goes_to_store_session(next, action, user_id, session_id, now),
    }
}

/// What follows once the password has been hashed.
pub open spec fn after_hashing(
    purpose: Purpose,
    username: Seq<char>,
    fresh: Fresh,
    hashed: Result<String, PasswordError>,
    next: SignIn,
    action: Action,
) -> bool {
    match crate::handlers::new_account_spec(fresh.user_id@, username, hashed_view(hashed)) {
        Err(e) => ends(next, action, e),
        Ok(account) => match purpose {
            Purpose::Login => {
                &&& next matches SignIn::InsertingUser { user_id, session_id, now } && user_id@
                    == fresh.user_id@ && session_id@ == fresh.session_id@ && now == fresh.now
                &&& action matches Action::InsertUser(user) && user@ == account
            },
            Purpose::Register => {
                &&& next matches SignIn::Storing { purpose: p, user_id, session_id, now } && p
                    == Purpose::Register && user_id@ == fresh.user_id@ && session_id@
                    == fresh.session_id@ && now == fresh.now
                &&& action matches Action::InsertUserWithSession(user, session) && user@ == account
                    && session@ == opened_session(fresh.user_id@, fresh.session_id@, fresh.now)
            },
        },
    }
}

/// What follows once the new account of a sign-in has been stored.
pub open spec fn after_inserting_user(
    user_id: Seq<char>,
    session_id: Seq<char>,
    now: i64,
    outcome: Result<(), StorageError>,
    next: SignIn,
    action: Action,
) -> bool {
    match outcome {
        Err(_) => ends(next, action, ApiErrorView::UnexpectedError("error inserting user"@)),
        Ok(()) => goes_to_store_session(next, action, user_id, session_id, now),
    }
}

/// The step that failed where the last write did.
pub open spec fn storing_context(purpose: Purpose) -> Seq<char> {
    match purpose {
        Purpose::Login => "error inserting session"@,
        Purpose::Register => "error inserting user with session"@,
    }
}

/// What follows once the session has been stored: the answer.
pub open spec fn after_storing(
    purpose: Purpose,
    user_id: Seq<char>,
    session_id: Seq<char>,
    now: i64,
    outcome: Result<(), StorageError>,
    at: i64,
    config: &Config,
    next: SignIn,
    action: Action,
) -> bool {
    match outcome {
        Err(_) => ends(next, action, ApiErrorView::UnexpectedError(storing_context(purpose))),
        Ok(()) => next is Done && (action matches Action::Answer(Ok(cookie)) && cookie@
            == session_cookie_value(
            config.secret@,
            config.is_prod,
            user_id,
            session_id,
            (now + SESSION_LIFETIME) as i64,
            at,
        )),
    }
}

/// What one step gives: for each place at which a call can stand and the
/// event it waits for there, where it stands next and what is to be done.
/// An event that the call does not wait for ends it.
pub open spec fn follows(state: SignIn, event: Event, config: &Config, next: SignIn, action: Action) -> bool {
    match (state, event) {
        (SignIn::Finding { purpose, form, fresh }, Event::Found(found)) => after_finding(
            purpose,
            form,
            fresh,
            found,
            next,
            action,
        ),
        (SignIn::Verifying { user_id, session_id, now }, Event::Verified(verdict)) => after_verifying(
            user_id@,
            session_id@,
            now,
            verdict,
            next,
            action,
        ),
        (SignIn::Hashing { purpose, username, fresh }, Event::Hashed(hashed)) => after_hashing(
            purpose,
            username@,
            fresh,
            hashed,
            next,
            action,
        ),
        (
            SignIn::InsertingUser { user_id, session_id, now },
            Event::Stored { outcome, at },
        ) => after_inserting_user(user_id@, session_id@, now, outcome, next, action),
        (
            SignIn::Storing { purpose, user_id, session_id, now },
            Event::Stored { outcome, at },
        ) => after_storing(purpose, user_id@, session_id@, now, outcome, at, config, next, action),
        _ => ends(next, action, ApiErrorView::UnexpectedError("event out of turn"@)),
    }
}

/// Ends a call with an error.
fn end(error: ApiError) -> (r: (SignIn, Action))
    ensures
        ends(r.0, r.1, error@),
{
    (SignIn::Done, Action::Answer(Err(error)))
}

/// Goes on to store the session of the user.
fn store_session(user_id: String, session_id: String, now: Timestamp) -> (r: (SignIn, Action))
    requires
        now + SESSION_LIFETIME <= i64::MAX,
    ensures
        goes_to_store_session(r.0, r.1, user_id@, session_id@, now),
        r.0.wf(),
{
    let session = open_session(user_id.as_str(), session_id.clone(), now);
    (
        SignIn::Storing { purpose: Purpose::Login, user_id, session_id, now },
        Action::InsertSession(session),
    )
}

impl SignIn {
    /// Whether the session that is opened runs out at an instant that can be
    /// told; every place that a step leads to is such a one.
    pub fn well_formed(&self) -> (ok: bool)
        ensures
            ok == self.wf(),
    {
        match self {
            SignIn::Finding { purpose, form, fresh } => fresh.now <= i64::MAX - SESSION_LIFETIME,
            SignIn::Verifying { user_id, session_id, now } => *now <= i64::MAX - SESSION_LIFETIME,
            SignIn::Hashing { purpose, username, fresh } => fresh.now <= i64::MAX
                - SESSION_LIFETIME,
            SignIn::InsertingUser { user_id, session_id, now } => *now <= i64::MAX
                - SESSION_LIFETIME,
            SignIn::Storing { purpose, user_id, session_id, now } => *now <= i64::MAX
                - SESSION_LIFETIME,
            SignIn::Done => true,
        }
    }

    /// Begins a sign-in: the first thing to do is to look the user name up.
    pub fn login(form: AuthForm, fresh: Fresh) -> (r: (SignIn, Action))
        requires
            fresh.now + SESSION_LIFETIME <= i64::MAX,
        ensures
            r.0 == (SignIn::Finding { purpose: Purpose::Login, form, fresh }),
            r.1 matches Action::FindUser(username) && username@ == form.username@,
            r.0.wf(),
    {
        let username = form.username.clone();
        (SignIn::Finding { purpose: Purpose::Login, form, fresh }, Action::FindUser(username))
    }

    /// Begins a registration: the first thing to do is to look the user name
    /// up.
    pub fn register(form: AuthForm, fresh: Fresh) -> (r: (SignIn, Action))
        requires
            fresh.now + SESSION_LIFETIME <= i64::MAX,
        ensures
            r.0 == (SignIn::Finding { purpose: Purpose::Register, form, fresh }),
            r.1 matches Action::FindUser(username) && username@ == form.username@,
            r.0.wf(),
    {
        let username = form.username.clone();
        (SignIn::Finding { purpose: Purpose::Register, form, fresh }, Action::FindUser(username))
    }

    /// Takes one step: given what the outside answered, says where the call
    /// stands next and what is to be done.
    pub fn next(self, event: Event, config: &Config) -> (r: (SignIn, Action))
        requires
            self.wf(),
        ensures
            follows(self, event, config, r.0, r.1),
            r.0.wf(),
    {
        match (self, event) {
            (SignIn::Finding { purpose, form, fresh }, Event::Found(found)) => match found {
                Err(_) => end(ApiError::unexpected("error getting user by username")),
                Ok(Some(user)) => match purpose {
                    Purpose::Register => end(ApiError::unauthorized("username taken")),
                    Purpose::Login => (
                        SignIn::Verifying {
                            user_id: user.id,
                            session_id: fresh.session_id,
                            now: fresh.now,
                        },
                        Action::VerifyPassword { password: form.password, hash: user.password_hash },
                    ),
                },
                Ok(None) => (
                    SignIn::Hashing { purpose, username: form.username, fresh },
                    Action::HashPassword(form.password),
                ),
            },
            (SignIn::Verifying { user_id, session_id, now }, Event::Verified(verdict)) => {
                match password_decision(verdict) {
                    Err(e) => end(e),
                    Ok(()) => store_session(user_id, session_id, now),
                }
            },
            (SignIn::Hashing { purpose, username, fresh }, Event::Hashed(hashed)) => {
                let Fresh { user_id, session_id, now, answered_at } = fresh;
                let kept = user_id.clone();
                match new_account(user_id, username, hashed) {
                    Err(e) => end(e),
                    Ok(user) => match purpose {
                        Purpose::Login => (
                            SignIn::InsertingUser { user_id: kept, session_id, now },
                            Action::InsertUser(user),
                        ),
                        Purpose::Register => {
                            let session = open_session(kept.as_str(), session_id.clone(), now);
                            (
                                SignIn::Storing {
                                    purpose: Purpose::Register,
                                    user_id: kept,
                                    session_id,
                                    now,
                                },
                                Action::InsertUserWithSession(user, session),
                            )
                        },
                    },
                }
            },
            (SignIn::InsertingUser { user_id, session_id, now }, Event::Stored { outcome, at }) => {
                match outcome {
                    Err(_) => end(ApiError::unexpected("error inserting user")),
                    Ok(()) => store_session(user_id, session_id, now),
                }
            },
            (
                SignIn::Storing { purpose, user_id, session_id, now },
                Event::Stored { outcome, at },
            ) => {
                match outcome {
                    Err(_) => match purpose {
                        Purpose::Login => end(ApiError::unexpected("error inserting session")),
                        Purpose::Register => end(
                            ApiError::unexpected("error inserting user with session"),
                        ),
                    },
                    Ok(()) => {
                        let cookie = session_cookie(
                            config,
                            user_id.as_str(),
                            session_id.as_str(),
                            now + SESSION_LIFETIME,
                            at,
                        );
                        (SignIn::Done, Action::Answer(Ok(cookie)))
                    },
                }
            },
            _ => end(ApiError::unexpected("event out of turn")),
        }
    }
}

/// The event of a write that went through.
pub open spec fn went_through(event: Event, at: i64) -> bool {
    event matches Event::Stored { outcome, at: a } && outcome is Ok && a == at
}

/// The event of a write that the store turned down because a key was taken.
pub open spec fn turned_down(event: Event, at: i64) -> bool {
    event matches Event::Stored { outcome, at: a } && outcome == Err::<(), StorageError>(
        StorageError::Conflict,
    ) && a == at
}

/// What doing an action on the stores in memory gives: the stores after it
/// and the event to hand back. Hashing is the one action whose event is not
/// decided by what went in: of the hash only [`hashing_outcome`] is known.
pub open spec fn performed(
    before: DataView,
    action: Action,
    at: i64,
    after: DataView,
    event: Event,
) -> bool {
    match action {
        Action::FindUser(username) => after == before && (event matches Event::Found(Ok(found))
            && crate::data::users::user_option_view(found) == crate::data::table::find(
            before.names,
            username@,
        )),
        Action::VerifyPassword { password, hash } => after == before && event == Event::Verified(
            verify_outcome(argon2_verdict(password@, hash@)),
        ),
        Action::HashPassword(password) => after == before && (event matches Event::Hashed(hashed)
            && hashing_outcome(password@, hashed_view(hashed))),
        Action::InsertUser(user) => if user_conflicts(before.users, before.names, user@) {
            after == before && turned_down(event, at)
        } else {
            after == with_user(before, user@) && went_through(event, at)
        },
        Action::InsertSession(session) => if before.sessions.contains_key(session.id@) {
            after == before && turned_down(event, at)
        } else {
            after == with_session(before, session@) && went_through(event, at)
        },
        Action::InsertUserWithSession(user, session) => if user_conflicts(
            before.users,
            before.names,
            user@,
        ) || before.sessions.contains_key(session.id@) {
            after == before && turned_down(event, at)
        } else {
            after == with_session(with_user(before, user@), session@) && went_through(event, at)
        },
        Action::Answer(_) => false,
    }
}

/// Does what an action says on the stores in memory and hands back the
/// event, or the answer where the action is the answer. `at` is the instant
/// that a write is reported to have ended at.
pub fn perform(data: &mut Data, action: Action, at: Timestamp) -> (r: Result<
    Event,
    Result<String, ApiError>,
>)
    ensures
        action is Answer ==> r is Err && r->Err_0 == action->Answer_0 && final(data)@ == old(data)@,
        !(action is Answer) ==> r is Ok && performed(old(data)@, action, at, final(data)@, r->Ok_0),
{
    match action {
        Action::Answer(answer) => Err(answer),
        Action::FindUser(username) => {
            let found = data.users.get_by_username(username.as_str());
            let event = Event::Found(found);
            assert(performed(old(data)@, action, at, data@, event));
            Ok(event)
        },
        Action::VerifyPassword { password, hash } => {
            let event = Event::Verified(password_verify(password.as_str(), hash.as_str()));
            assert(performed(old(data)@, action, at, data@, event));
            Ok(event)
        },
        Action::HashPassword(password) => {
            let event = Event::Hashed(password_hash(password.as_str()));
            assert(performed(old(data)@, action, at, data@, event));
            Ok(event)
        },
        Action::InsertUser(user) => {
            let event = Event::Stored { outcome: data.users.insert(&user), at };
            assert(performed(old(data)@, action, at, data@, event));
            Ok(event)
        },
        Action::InsertSession(session) => {
            let event = Event::Stored { outcome: data.sessions.insert(&session), at };
            assert(performed(old(data)@, action, at, data@, event));
            Ok(event)
        },
        Action::InsertUserWithSession(user, session) => {
            let outcome = data.users.insert_with_session(&mut data.sessions, &user, &session);
            let event = Event::Stored { outcome, at };
            assert(performed(old(data)@, action, at, data@, event));
            Ok(event)
        },
    }
}

/// Does what the action says on the stores in memory and takes the step
/// that follows; or hands out the answer where the action is the answer.
/// With the step comes, for the proofs of the callers, the event that led to
/// it.
fn advance(
    data: &mut Data,
    config: &Config,
    state: SignIn,
    action: Action,
    at: Timestamp,
) -> (r: Result<(SignIn, Action, Ghost<Event>), Result<String, ApiError>>)
    requires
        state.wf(),
    ensures
        action is Answer ==> r is Err && r->Err_0 == action->Answer_0 && final(data)@ == old(data)@,
        !(action is Answer) ==> r is Ok && r->Ok_0.0.wf() && performed(
            old(data)@,
            action,
            at,
            final(data)@,
            r->Ok_0.2@,
        ) && follows(state, r->Ok_0.2@, config, r->Ok_0.0, r->Ok_0.1),
{
    match perform(data, action, at) {
        Err(answer) => Err(answer),
        Ok(event) => {
            let ghost seen = event;
            let (next, action) = state.next(event, config);
            Ok((next, action, Ghost(seen)))
        },
    }
}

/// Serves a sign-in or a registration on the stores in memory from
/// beginning to end: takes step after step, does what each asks for, and
/// hands out the answer. The clock reads `fresh.answered_at` whenever a
/// write has ended.
pub fn run(data: &mut Data, config: &Config, purpose: Purpose, form: AuthForm, fresh: Fresh) -> (r:
    Result<String, ApiError>)
    requires
        fresh.now + SESSION_LIFETIME <= i64::MAX,
    ensures
        purpose == Purpose::Login ==> match find(old(data)@.names, form.username@) {
            Some(user) => (text_result_view(r), final(data)@) == login_known_spec(
                old(data)@,
                config.secret@,
                config.is_prod,
                user,
                verify_outcome(argon2_verdict(form.password@, user.password_hash)),
                fresh.session_id@,
                fresh.now,
                fresh.answered_at,
            ),
            None => exists|hashed: Result<Seq<char>, PasswordError>|
                hashing_outcome(form.password@, hashed) && (text_result_view(r), final(data)@)
                    == #[trigger] login_new_spec(
                    old(data)@,
                    config.secret@,
                    config.is_prod,
                    form.username@,
                    hashed,
                    fresh.user_id@,
                    fresh.session_id@,
                    fresh.now,
                    fresh.answered_at,
                ),
        },
        purpose == Purpose::Register ==> match find(old(data)@.names, form.username@) {
            Some(_) => text_result_view(r) == Err::<Seq<char>, ApiErrorView>(
                ApiErrorView::Unauthorized("username taken"@),
            ) && final(data)@ == old(data)@,
            None => exists|hashed: Result<Seq<char>, PasswordError>|
                hashing_outcome(form.password@, hashed) && (text_result_view(r), final(data)@)
                    == #[trigger] register_new_spec(
                    old(data)@,
                    config.secret@,
                    config.is_prod,
                    form.username@,
                    hashed,
                    fresh.user_id@,
                    fresh.session_id@,
                    fresh.now,
                    fresh.answered_at,
                ),
        },
{
    let at = fresh.answered_at;
    let ghost mut hashed: Result<Seq<char>, PasswordError> = Err(PasswordError::Hashing);
    let (s0, a0) = match purpose {
        Purpose::Login => SignIn::login(form, fresh),
        Purpose::Register => SignIn::register(form, fresh),
    };
    let answer = match advance(data, config, s0, a0, at) {
        Err(answer) => answer,
        Ok((s1, a1, e1)) => match advance(data, config, s1, a1, at) {
            Err(answer) => answer,
            Ok((s2, a2, e2)) => {
                proof {
                    hashed = match e2@ {
                        Event::Hashed(h) => hashed_view(h),
                        _ => hashed,
                    };
                }
                match advance(data, config, s2, a2, at) {
                    Err(answer) => answer,
                    Ok((s3, a3, e3)) => match advance(data, config, s3, a3, at) {
                        Err(answer) => answer,
                        Ok((s4, a4, e4)) => match advance(data, config, s4, a4, at) {
                            Err(answer) => answer,
                            Ok(_) => {
                                assert(false);
                                Err(ApiError::unexpected("event out of turn"))
                            },
                        },
                    },
                }
            },
        },
    };
    proof {
        if find(old(data)@.names, form.username@) is None {
            assert(hashing_outcome(form.password@, hashed));
            match purpose {
                Purpose::Login => {
                    assert((text_result_view(answer), data@) == login_new_spec(
                        old(data)@,
                        config.secret@,
                        config.is_prod,
                        form.username@,
                        hashed,
                        fresh.user_id@,
                        fresh.session_id@,
                        fresh.now,
                        fresh.answered_at,
                    ));
                },
                Purpose::Register => {
                    assert((text_result_view(answer), data@) == register_new_spec(
                        old(data)@,
                        config.secret@,
                        config.is_prod,
                        form.username@,
                        hashed,
                        fresh.user_id@,
                        fresh.session_id@,
                        fresh.now,
                        fresh.answered_at,
                    ));
                },
            }
        }
    }
    answer
}

} // verus!
