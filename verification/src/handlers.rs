//! The request interface: registration, login and the contact list.

use vstd::prelude::*;
use crate::errors::ChatError;
use crate::identity::{
    after_call, contact_check, contact_of, contact_views, has_user, lists, newcomer, user_named,
    UserView,
};
use crate::passwords::{accepted, bcrypt_verdict, hash_password, verify_password};
use crate::records::{
    welcome, AddContactPayload, AuthPayload, AuthResponse, AuthResponseView, ContactView, UserDTO,
    UserSession,
};
use crate::stamps::{is_random_uuid, new_token, new_user_id, UserId, TOKEN_LEN};
use crate::state::{
    create_session, create_session_with, session_created, session_for, AppState, StateView,
};

verus! {

/// Whether a registration under `username` with `password` can go ahead,
/// and the error if it cannot: both must be there, and the name must be
/// free.
pub open spec fn registration_check(
    users: Seq<UserView>,
    username: Seq<char>,
    password: Seq<char>,
) -> Result<(), ChatError> {
    if username.len() == 0 || password.len() == 0 {
        Err(ChatError::MissingCredentials)
    } else if has_user(users, username) {
        Err(ChatError::UsernameTaken)
    } else {
        Ok(())
    }
}

/// The user that a login as `username` with `password` lets in, and the
/// error if it lets nobody in. An unknown name and a wrong password give
/// the same error.
pub open spec fn login_check(users: Seq<UserView>, username: Seq<char>, password: Seq<char>) -> Result<
    UserView,
    ChatError,
> {
    if username.len() == 0 || password.len() == 0 {
        Err(ChatError::MissingCredentials)
    } else if !has_user(users, username) {
        Err(ChatError::BadLogin)
    } else if bcrypt_verdict(password, user_named(users, username).password_hash) == Some(true) {
        Ok(user_named(users, username))
    } else {
        Err(ChatError::BadLogin)
    }
}

/// The state after `user` registered and got the session under `key`.
pub open spec fn enrolled<C>(state: StateView<C>, user: UserView, key: Seq<char>) -> StateView<C> {
    let created = session_created(state, session_for(contact_of(user), key));
    StateView { users: state.users.push(user), ..created }
}

/// `response` grants `user` a session under a fresh credential, and
/// `after` is `before` with that session created.
pub open spec fn granted<C>(
    before: StateView<C>,
    after: StateView<C>,
    user: ContactView,
    response: AuthResponseView,
) -> bool {
    &&& response.session_key.len() == TOKEN_LEN
    &&& response == welcome(session_for(user, response.session_key))
    &&& after == session_created(before, session_for(user, response.session_key))
}

/// Checks a registration request against the identity store.
pub fn validate_registration<C>(payload: &AuthPayload, app_state: &AppState<C>) -> (checked: Result<
    (),
    ChatError,
>)
    ensures
        checked == registration_check(app_state@.users, payload.username@, payload.password@),
{
    if payload.username.as_str().is_empty() || payload.password.as_str().is_empty() {
        Err(ChatError::MissingCredentials)
    } else if app_state.users.contains(payload.username.as_str()) {
        Err(ChatError::UsernameTaken)
    } else {
        Ok(())
    }
}

/// Registers the user of `payload` with the given password hash and
/// identifier, and opens their first session under `session_key`.
pub fn enroll_with<C>(
    payload: AuthPayload,
    password_hash: String,
    id: UserId,
    session_key: String,
    app_state: &mut AppState<C>,
) -> (answer: Result<AuthResponse, ChatError>)
    ensures
        match registration_check(old(app_state)@.users, payload.username@, payload.password@) {
            Err(e) => answer == Err::<AuthResponse, ChatError>(e) && final(app_state)@ == old(
                app_state,
            )@,
            Ok(_) => {
                let user = newcomer(id, payload.username@, password_hash@);
                &&& answer is Ok
                &&& answer->Ok_0@ == welcome(session_for(contact_of(user), session_key@))
                &&& final(app_state)@ == enrolled(old(app_state)@, user, session_key@)
            },
        },
{
    match validate_registration(&payload, app_state) {
        Err(e) => Err(e),
        Ok(_) => {
            let user = UserDTO { id, username: payload.username.clone() };
            let response = create_session_with(&user, session_key, app_state);
            let _ = app_state.users.add(id, payload.username, password_hash);
            Ok(response)
        },
    }
}

/// Registers a new user and opens their first session.
///
/// The password is hashed before it is stored, so that the stored hash
/// verifies against it, and the user identifier and the session credential
/// are drawn at random.
pub fn register_handler<C>(payload: AuthPayload, app_state: &mut AppState<C>) -> (answer: Result<
    AuthResponse,
    ChatError,
>)
    ensures
        match registration_check(old(app_state)@.users, payload.username@, payload.password@) {
            Err(e) => answer == Err::<AuthResponse, ChatError>(e) && final(app_state)@ == old(
                app_state,
            )@,
            Ok(_) => match answer {
                Ok(response) => {
                    let stored = final(app_state)@.users.last();
                    &&& is_random_uuid(response.user_id.0)
                    &&& response.session_key@.len() == TOKEN_LEN
                    &&& stored == newcomer(
                        response.user_id,
                        payload.username@,
                        stored.password_hash,
                    )
                    &&& bcrypt_verdict(payload.password@, stored.password_hash) == Some(true)
                    &&& response@ == welcome(
                        session_for(contact_of(stored), response.session_key@),
                    )
                    &&& final(app_state)@ == enrolled(
                        old(app_state)@,
                        stored,
                        response.session_key@,
                    )
                },
                Err(e) => e == ChatError::HashingFailed && final(app_state)@ == old(app_state)@,
            },
        },
{
    match validate_registration(&payload, app_state) {
        Err(e) => Err(e),
        Ok(_) => match hash_password(payload.password.as_str()) {
            Err(_) => Err(ChatError::HashingFailed),
            Ok(password_hash) => {
                let id = new_user_id();
                let session_key = new_token();
                enroll_with(payload, password_hash, id, session_key, app_state)
            },
        },
    }
}

/// Finishes a login of `user` whose password check gave `verdict`: a plain
/// yes opens a session under a fresh credential, anything else is a failed
/// login.
pub fn conclude_login<C>(
    user: &UserDTO,
    verdict: Option<bool>,
    app_state: &mut AppState<C>,
) -> (answer: Result<AuthResponse, ChatError>)
    ensures
        match answer {
            Ok(response) => verdict == Some(true) && granted(
                old(app_state)@,
                final(app_state)@,
                user@,
                response@,
            ),
            Err(e) => verdict != Some(true) && e == ChatError::BadLogin && final(app_state)@
                == old(app_state)@,
        },
{
    if accepted(verdict) {
        Ok(create_session(user, app_state))
    } else {
        Err(ChatError::BadLogin)
    }
}

/// Logs a user in and opens a session for them, which takes the place of
/// the session they had.
pub fn login_handler<C>(payload: AuthPayload, app_state: &mut AppState<C>) -> (answer: Result<
    AuthResponse,
    ChatError,
>)
    ensures
        match login_check(old(app_state)@.users, payload.username@, payload.password@) {
            Err(e) => answer == Err::<AuthResponse, ChatError>(e) && final(app_state)@ == old(
                app_state,
            )@,
            Ok(user) => answer is Ok && granted(
                old(app_state)@,
                final(app_state)@,
                contact_of(user),
                answer->Ok_0@,
            ),
        },
{
    if payload.username.as_str().is_empty() || payload.password.as_str().is_empty() {
        return Err(ChatError::MissingCredentials);
    }
    let (user, verdict) = match app_state.users.get(payload.username.as_str()) {
        Some(found) => (
            found.summary(),
            verify_password(payload.password.as_str(), found.password_hash().as_str()),
        ),
        None => {
            return Err(ChatError::BadLogin);
        },
    };
    conclude_login(&user, verdict, app_state)
}

/// Makes the user behind `session` and the user named in `payload`
/// contacts of each other.
pub fn add_contact_handler<C>(
    payload: AddContactPayload,
    session: &UserSession,
    app_state: &mut AppState<C>,
) -> (answer: Result<(), ChatError>)
    ensures
        answer == contact_check(old(app_state)@.users, session.username@, payload.contact_username@),
        final(app_state)@.users == after_call(
            old(app_state)@.users,
            session.username@,
            payload.contact_username@,
        ),
        final(app_state)@.sessions == old(app_state)@.sessions,
        final(app_state)@.connections == old(app_state)@.connections,
{
    app_state.users.add_contact(session.username.as_str(), payload.contact_username.as_str())
}

/// The contacts of the user behind `session`, each of them once, in no
/// particular order.
pub fn get_contacts_handler<C>(session: &UserSession, app_state: &AppState<C>) -> (answer: Result<
    Vec<UserDTO>,
    ChatError,
>)
    ensures
        match answer {
            Ok(list) => has_user(app_state@.users, session.username@) && lists(
                contact_views(list@),
                user_named(app_state@.users, session.username@).contacts,
            ),
            Err(e) => e == ChatError::SessionUserMissing && !has_user(
                app_state@.users,
                session.username@,
            ),
        },
{
    app_state.users.list_contacts(session.username.as_str())
}

} // verus!
