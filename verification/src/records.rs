//! Plain records that cross the request interface, and what each of them
//! is in contracts.

use vstd::prelude::*;
use crate::stamps::UserId;

verus! {

/// Body of a registration or login request.
#[derive(Debug, PartialEq, Eq)]
pub struct AuthPayload {
    pub username: String,
    pub password: String,
}

/// Body of an add-contact request.
#[derive(Debug, PartialEq, Eq)]
pub struct AddContactPayload {
    pub contact_username: String,
}

/// A user as others see them: identifier and name.
#[derive(Debug, PartialEq, Eq)]
pub struct UserDTO {
    pub id: UserId,
    pub username: String,
}

/// What a [`UserDTO`] is in contracts.
pub ghost struct ContactView {
    pub id: UserId,
    pub username: Seq<char>,
}

impl View for UserDTO {
    type V = ContactView;

    open spec fn view(&self) -> ContactView {
        ContactView { id: self.id, username: self.username@ }
    }
}

/// An active session: the user it belongs to and the credential that
/// names it.
#[derive(Debug, PartialEq, Eq)]
pub struct UserSession {
    pub user_id: UserId,
    pub username: String,
    pub session_key: String,
}

/// What a [`UserSession`] is in contracts.
pub ghost struct SessionView {
    pub user_id: UserId,
    pub username: Seq<char>,
    pub session_key: Seq<char>,
}

impl View for UserSession {
    type V = SessionView;

    open spec fn view(&self) -> SessionView {
        SessionView {
            user_id: self.user_id,
            username: self.username@,
            session_key: self.session_key@,
        }
    }
}

impl Clone for UserSession {
    fn clone(&self) -> (copy: UserSession)
        ensures
            copy@ == self@,
    {
        UserSession {
            user_id: self.user_id,
            username: self.username.clone(),
            session_key: self.session_key.clone(),
        }
    }
}

impl Clone for UserDTO {
    fn clone(&self) -> (copy: UserDTO)
        ensures
            copy@ == self@,
    {
        UserDTO { id: self.id, username: self.username.clone() }
    }
}

/// Answer to a successful registration or login.
#[derive(Debug, PartialEq, Eq)]
pub struct AuthResponse {
    pub message: String,
    pub session_key: String,
    pub user_id: UserId,
    pub username: String,
}

/// What an [`AuthResponse`] is in contracts.
pub ghost struct AuthResponseView {
    pub message: Seq<char>,
    pub session_key: Seq<char>,
    pub user_id: UserId,
    pub username: Seq<char>,
}

impl View for AuthResponse {
    type V = AuthResponseView;

    open spec fn view(&self) -> AuthResponseView {
        AuthResponseView {
            message: self.message@,
            session_key: self.session_key@,
            user_id: self.user_id,
            username: self.username@,
        }
    }
}

/// The answer that announces the session `session` to its user.
pub open spec fn welcome(session: SessionView) -> AuthResponseView {
    AuthResponseView {
        message: "Authentication successful"@,
        session_key: session.session_key,
        user_id: session.user_id,
        username: session.username,
    }
}

} // verus!
