//! The whole state of the relay: identity store, session directory and
//! connection registry, and the one operation that spans the latter two.

use vstd::prelude::*;
use crate::connections::{is_connected, other_than, ConnectionRegistry, ConnectionView};
use crate::errors::ChatError;
use crate::identity::{IdentityStore, UserView};
use crate::records::{welcome, AuthResponse, ContactView, SessionView, UserDTO, UserSession};
use crate::seqs::lemma_filter_membership;
use crate::sessions::{
    has_session, has_session_of, installed, lemma_session_of, session_keyed, session_of,
    SessionDirectory,
};
use crate::stamps::{new_token, TOKEN_LEN};

verus! {

/// State shared by all request handlers and connections. `C` is the type
/// of the channel that carries frames to a connection.
pub struct AppState<C> {
    /// Registered users, found by username.
    pub users: IdentityStore,
    /// Active sessions, found by session credential.
    pub user_sessions: SessionDirectory,
    /// Live connections, found by session credential.
    pub active_connections: ConnectionRegistry<C>,
}

/// What an [`AppState`] is in contracts.
pub ghost struct StateView<C> {
    pub users: Seq<UserView>,
    pub sessions: Seq<SessionView>,
    pub connections: Seq<ConnectionView<C>>,
}

impl<C> View for AppState<C> {
    type V = StateView<C>;

    open spec fn view(&self) -> StateView<C> {
        StateView {
            users: self.users@,
            sessions: self.user_sessions@,
            connections: self.active_connections@,
        }
    }
}

/// The session that `key` names for `user`.
pub open spec fn session_for(user: ContactView, key: Seq<char>) -> SessionView {
    SessionView { user_id: user.id, username: user.username, session_key: key }
}

/// The connections that are left when the session that `session` takes
/// the place of is cut off: the connection under the credential of the
/// earlier session of that user is gone.
pub open spec fn cut_off<C>(
    connections: Seq<ConnectionView<C>>,
    sessions: Seq<SessionView>,
    session: SessionView,
) -> Seq<ConnectionView<C>> {
    if has_session_of(sessions, session.user_id) {
        connections.filter(other_than(session_of(sessions, session.user_id).session_key))
    } else {
        connections
    }
}

/// The state after `session` was created: it is the one session of its
/// user, and the connection of the session it replaced is closed.
pub open spec fn session_created<C>(state: StateView<C>, session: SessionView) -> StateView<C> {
    StateView {
        users: state.users,
        sessions: installed(state.sessions, session),
        connections: cut_off(state.connections, state.sessions, session),
    }
}

impl<C> AppState<C> {
    /// A state without users, sessions and connections.
    pub fn new() -> (state: AppState<C>)
        ensures
            state@.users == Seq::<UserView>::empty(),
            state@.sessions == Seq::<SessionView>::empty(),
            state@.connections == Seq::<ConnectionView<C>>::empty(),
    {
        AppState {
            users: IdentityStore::new(),
            user_sessions: SessionDirectory::new(),
            active_connections: ConnectionRegistry::new(),
        }
    }

    /// Resolves a session credential, as every authenticated request and
    /// every connection attempt does first.
    pub fn authenticate(&self, credential: &str) -> (found: Result<UserSession, ChatError>)
        ensures
            match found {
                Ok(session) => has_session(self@.sessions, credential@) && session@
                    == session_keyed(self@.sessions, credential@),
                Err(e) => e == ChatError::BadSession && !has_session(self@.sessions, credential@),
            },
    {
        self.user_sessions.resolve(credential)
    }
}

/// Creates the session that `session_key` names for `user`. Sessions and
/// connections change together: the session that the user had is dropped,
/// and the connection that was open under it is closed by dropping its
/// channel.
pub fn create_session_with<C>(
    user: &UserDTO,
    session_key: String,
    app_state: &mut AppState<C>,
) -> (granted: AuthResponse)
    ensures
        final(app_state)@ == session_created(old(app_state)@, session_for(user@, session_key@)),
        granted@ == welcome(session_for(user@, session_key@)),
        has_session_of(final(app_state)@.sessions, user.id),
        session_of(final(app_state)@.sessions, user.id) == session_for(user@, session_key@),
        has_session_of(old(app_state)@.sessions, user.id) ==> !is_connected(
            final(app_state)@.connections,
            session_of(old(app_state)@.sessions, user.id).session_key,
        ),
{
    let session = UserSession {
        user_id: user.id,
        username: user.username.clone(),
        session_key: session_key.clone(),
    };
    let superseded = app_state.user_sessions.install(session);
    match superseded {
        Some(previous) => {
            let _ = app_state.active_connections.unregister(previous.session_key.as_str());
        },
        None => {},
    }
    proof {
        use_type_invariant(&app_state.user_sessions);
        let next = app_state@;
        let created = session_for(user@, session_key@);
        let last = next.sessions.len() - 1;
        assert(next.sessions[last] == created);
        lemma_session_of(next.sessions, user.id, last);
        if has_session_of(old(app_state)@.sessions, user.id) {
            let gone = session_of(old(app_state)@.sessions, user.id).session_key;
            if is_connected(next.connections, gone) {
                let i = choose|i: int|
                    0 <= i < next.connections.len() && (
                    #[trigger] next.connections[i]).credential == gone;
                lemma_filter_membership(
                    old(app_state)@.connections,
                    other_than(gone),
                    next.connections[i],
                );
                assert(next.connections.contains(next.connections[i]));
            }
        }
    }
    AuthResponse {
        message: "Authentication successful".to_owned(),
        session_key,
        user_id: user.id,
        username: user.username.clone(),
    }
}

/// Creates a session for `user` under a fresh random credential.
pub fn create_session<C>(user: &UserDTO, app_state: &mut AppState<C>) -> (granted: AuthResponse)
    ensures
        granted.session_key@.len() == TOKEN_LEN,
        final(app_state)@ == session_created(
            old(app_state)@,
            session_for(user@, granted.session_key@),
        ),
        granted@ == welcome(session_for(user@, granted.session_key@)),
        has_session_of(final(app_state)@.sessions, user.id),
        session_of(final(app_state)@.sessions, user.id) == session_for(
            user@,
            granted.session_key@,
        ),
        has_session_of(old(app_state)@.sessions, user.id) ==> !is_connected(
            final(app_state)@.connections,
            session_of(old(app_state)@.sessions, user.id).session_key,
        ),
{
    create_session_with(user, new_token(), app_state)
}

} // verus!
