//! Message router and presence broadcaster: which connections receive
//! which outbound event.
//!
//! Every function here decides; none of them sends. A [`Delivery`] names
//! the event and borrows the connections it goes to, and the caller hands
//! the event, serialised once, to the channel of each of them.

use vstd::prelude::*;
use crate::connections::{
    connection_views, distinct_credentials, held_by, held_by_either, other_than, registered,
    Connection, ConnectionView,
};
use crate::messages::{
    announced, relayed, ClientMessage, ClientMessageView, ServerMessage, ServerMessageView, Stamp,
    StampView, Status,
};
use crate::records::UserSession;
use crate::seqs::{lemma_filter_keeps_all, lemma_filter_membership};
use crate::stamps::{new_token, now_rfc3339, UserId, TIMESTAMP_MIN_LEN, TOKEN_LEN};
use crate::state::{AppState, StateView};

verus! {

/// An outbound event and the connections that receive it, in the order in
/// which they are served. No connection is listed twice: each receives the
/// event once.
pub struct Delivery<'a, C> {
    pub message: ServerMessage,
    pub recipients: Vec<&'a Connection<C>>,
}

impl<'a, C> Delivery<'a, C> {
    /// The receiving connections as they are in contracts.
    pub open spec fn recipient_views(&self) -> Seq<ConnectionView<C>> {
        connection_views(self.recipients@)
    }
}

/// The connections of `user`: those whose credential names a session of
/// `user`, in registration order.
pub open spec fn connections_of<C>(state: StateView<C>, user: UserId) -> Seq<ConnectionView<C>> {
    state.connections.filter(held_by(state.sessions, user))
}

/// The connections that a chat message of `sender` to `target` goes to:
/// those of the addressed user and, as an echo, those of the sender, in
/// registration order. A user who writes to themselves is served once.
pub open spec fn chat_recipients<C>(
    state: StateView<C>,
    target: UserId,
    sender: UserId,
) -> Seq<ConnectionView<C>> {
    state.connections.filter(held_by_either(state.sessions, target, sender))
}

/// The connections that receive what `sender` sent with `message`.
///
/// A chat message goes to the connections of the addressed user and, as
/// an echo, to those of the sender. A typing indicator and a read receipt
/// go to the connections of the addressed user only.
pub open spec fn recipients_of<C>(
    state: StateView<C>,
    message: ClientMessageView,
    sender: UserId,
) -> Seq<ConnectionView<C>> {
    match message {
        ClientMessageView::ChatMessage { to_user_id, .. } => chat_recipients(
            state,
            to_user_id,
            sender,
        ),
        ClientMessageView::TypingIndicator { to_user_id, .. } => connections_of(state, to_user_id),
        ClientMessageView::ReadReceipt { to_user_id, .. } => connections_of(state, to_user_id),
    }
}

/// The connections that are told of a change of presence of the session
/// under `key`: all but the one opened with `key`.
pub open spec fn audience<C>(state: StateView<C>, key: Seq<char>) -> Seq<ConnectionView<C>> {
    state.connections.filter(other_than(key))
}

/// The stamp that an outbound event carries: that of a chat message, and
/// an empty one for every other event.
pub open spec fn stamp_on(message: ServerMessageView) -> StampView {
    match message {
        ServerMessageView::ChatMessage { message_id, timestamp, .. } => StampView {
            message_id,
            timestamp,
        },
        _ => StampView { message_id: Seq::empty(), timestamp: Seq::empty() },
    }
}

/// Relays a chat message of `sender_session` to the user `to_user_id`,
/// with the given stamp: to the connections of that user and back to the
/// connections of the sender, once to each.
pub fn relay_chat<'a, C>(
    to_user_id: UserId,
    message: String,
    stamp: Stamp,
    sender_session: &UserSession,
    app_state: &'a AppState<C>,
) -> (delivery: Delivery<'a, C>)
    ensures
        delivery.message@ == relayed(
            ClientMessageView::ChatMessage { to_user_id, message: message@ },
            sender_session@,
            stamp@,
        ),
        delivery.recipient_views() == chat_recipients(
            app_state@,
            to_user_id,
            sender_session.user_id,
        ),
        distinct_credentials(delivery.recipient_views()),
{
    Delivery {
        message: ServerMessage::ChatMessage {
            from_user_id: sender_session.user_id,
            from_username: sender_session.username.clone(),
            to_user_id,
            message_id: stamp.message_id,
            timestamp: stamp.timestamp,
            message,
        },
        recipients: app_state.active_connections.channels_for_users(
            &app_state.user_sessions,
            to_user_id,
            sender_session.user_id,
        ),
    }
}

/// Relays a typing indicator of `sender_session` to the connections of the
/// user `to_user_id`.
pub fn relay_typing<'a, C>(
    to_user_id: UserId,
    is_typing: bool,
    sender_session: &UserSession,
    app_state: &'a AppState<C>,
) -> (delivery: Delivery<'a, C>)
    ensures
        delivery.message@ == (ServerMessageView::TypingIndicator {
            from_user_id: sender_session.user_id,
            is_typing,
        }),
        delivery.recipient_views() == connections_of(app_state@, to_user_id),
        distinct_credentials(delivery.recipient_views()),
{
    Delivery {
        message: ServerMessage::TypingIndicator { from_user_id: sender_session.user_id, is_typing },
        recipients: app_state.active_connections.channels_for_user(
            &app_state.user_sessions,
            to_user_id,
        ),
    }
}

/// Relays a read receipt of `sender_session` to the connections of the
/// user `to_user_id`, who sent the message that was read.
pub fn relay_receipt<'a, C>(
    to_user_id: UserId,
    message_id: String,
    sender_session: &UserSession,
    app_state: &'a AppState<C>,
) -> (delivery: Delivery<'a, C>)
    ensures
        delivery.message@ == (ServerMessageView::ReadReceipt {
            from_user_id: sender_session.user_id,
            message_id: message_id@,
        }),
        delivery.recipient_views() == connections_of(app_state@, to_user_id),
        distinct_credentials(delivery.recipient_views()),
{
    Delivery {
        message: ServerMessage::ReadReceipt { from_user_id: sender_session.user_id, message_id },
        recipients: app_state.active_connections.channels_for_user(
            &app_state.user_sessions,
            to_user_id,
        ),
    }
}

/// Routes an inbound event of the session `sender_session`, once to each
/// connection that receives it. A chat message gets a fresh message
/// identifier and the current time.
pub fn handle_client_message<'a, C>(
    msg: ClientMessage,
    sender_session: &UserSession,
    app_state: &'a AppState<C>,
) -> (delivery: Delivery<'a, C>)
    ensures
        delivery.message@ == relayed(msg@, sender_session@, stamp_on(delivery.message@)),
        delivery.recipient_views() == recipients_of(app_state@, msg@, sender_session.user_id),
        distinct_credentials(delivery.recipient_views()),
        msg is ChatMessage ==> stamp_on(delivery.message@).message_id.len() == TOKEN_LEN,
        msg is ChatMessage ==> stamp_on(delivery.message@).timestamp.len() >= TIMESTAMP_MIN_LEN,
{
    match msg {
        ClientMessage::ChatMessage { to_user_id, message } => {
            let stamp = Stamp { message_id: new_token(), timestamp: now_rfc3339() };
            relay_chat(to_user_id, message, stamp, sender_session, app_state)
        },
        ClientMessage::TypingIndicator { to_user_id, is_typing } => relay_typing(
            to_user_id,
            is_typing,
            sender_session,
            app_state,
        ),
        ClientMessage::ReadReceipt { to_user_id, message_id } => relay_receipt(
            to_user_id,
            message_id,
            sender_session,
            app_state,
        ),
    }
}

/// Announces the presence of the user behind `session` to every live
/// connection but the one that `session` itself opened, once to each.
pub fn broadcast_status<'a, C>(
    app_state: &'a AppState<C>,
    session: &UserSession,
    status: Status,
) -> (delivery: Delivery<'a, C>)
    ensures
        delivery.message@ == announced(session@, status),
        delivery.recipient_views() == audience(app_state@, session.session_key@),
        distinct_credentials(delivery.recipient_views()),
{
    Delivery {
        message: ServerMessage::StatusMessage {
            user_id: session.user_id,
            username: session.username.clone(),
            status,
        },
        recipients: app_state.active_connections.all_except(session.session_key.as_str()),
    }
}

/// What happens on a connection, as its owner reports it.
pub enum ConnectionEvent<C> {
    /// The connection was opened; frames for it go into the channel.
    Opened(C),
    /// A well-formed frame arrived.
    Frame(ClientMessage),
    /// The connection ended, cleanly or not.
    Closed,
}

/// The connections after an event on the connection of the session under
/// `key`.
pub open spec fn connections_after<C>(
    connections: Seq<ConnectionView<C>>,
    event: ConnectionEvent<C>,
    key: Seq<char>,
) -> Seq<ConnectionView<C>> {
    match event {
        ConnectionEvent::Opened(channel) => registered(connections, key, channel),
        ConnectionEvent::Frame(_) => connections,
        ConnectionEvent::Closed => connections.filter(other_than(key)),
    }
}

/// One step of a connection of the session `session`: takes the event,
/// updates the registry, and says what is to be sent to whom.
///
/// Opening registers the channel and announces the user as online;
/// closing removes the connection and announces the user as offline; a
/// frame is routed. The announcements never go to the connection itself.
pub fn handle_ws<'a, C>(
    event: ConnectionEvent<C>,
    session: &UserSession,
    app_state: &'a mut AppState<C>,
) -> (delivery: Delivery<'a, C>)
    ensures
        final(app_state)@.users == old(app_state)@.users,
        final(app_state)@.sessions == old(app_state)@.sessions,
        final(app_state)@.connections == connections_after(
            old(app_state)@.connections,
            event,
            session.session_key@,
        ),
        distinct_credentials(delivery.recipient_views()),
        match event {
            ConnectionEvent::Opened(_) => {
                &&& delivery.message@ == announced(session@, Status::Online)
                &&& delivery.recipient_views() == audience(old(app_state)@, session.session_key@)
                &&& delivery.recipient_views() == audience(
                    final(app_state)@,
                    session.session_key@,
                )
            },
            ConnectionEvent::Frame(msg) => {
                &&& delivery.message@ == relayed(msg@, session@, stamp_on(delivery.message@))
                &&& delivery.recipient_views() == recipients_of(
                    old(app_state)@,
                    msg@,
                    session.user_id,
                )
                &&& msg is ChatMessage ==> stamp_on(delivery.message@).message_id.len()
                    == TOKEN_LEN
                &&& msg is ChatMessage ==> stamp_on(delivery.message@).timestamp.len()
                    >= TIMESTAMP_MIN_LEN
            },
            ConnectionEvent::Closed => {
                &&& delivery.message@ == announced(session@, Status::Offline)
                &&& delivery.recipient_views() == final(app_state)@.connections
            },
        },
{
    match event {
        ConnectionEvent::Opened(channel) => {
            let _ = app_state.active_connections.register(session.session_key.clone(), channel);
            proof {
                lemma_audience_after_open(
                    old(app_state)@.connections,
                    session.session_key@,
                    channel,
                );
            }
            broadcast_status(app_state, session, Status::Online)
        },
        ConnectionEvent::Frame(msg) => handle_client_message(msg, session, app_state),
        ConnectionEvent::Closed => {
            let _ = app_state.active_connections.unregister(session.session_key.as_str());
            proof {
                lemma_audience_after_close(old(app_state)@.connections, session.session_key@);
            }
            broadcast_status(app_state, session, Status::Offline)
        },
    }
}

/// Registering a connection does not change who else is connected.
pub proof fn lemma_audience_after_open<C>(
    connections: Seq<ConnectionView<C>>,
    key: Seq<char>,
    channel: C,
)
    ensures
        registered(connections, key, channel).filter(other_than(key)) == connections.filter(
            other_than(key),
        ),
{
    let kept = connections.filter(other_than::<C>(key));
    lemma_audience_after_close(connections, key);
    kept.lemma_filter_push(ConnectionView { credential: key, channel }, other_than(key));
}

/// Once a connection is removed, everyone left is someone else.
pub proof fn lemma_audience_after_close<C>(connections: Seq<ConnectionView<C>>, key: Seq<char>)
    ensures
        connections.filter(other_than(key)).filter(other_than(key)) == connections.filter(
            other_than(key),
        ),
{
    let kept = connections.filter(other_than::<C>(key));
    assert forall|j: int| 0 <= j < kept.len() implies other_than::<C>(key)(#[trigger] kept[j]) by {
        lemma_filter_membership(connections, other_than(key), kept[j]);
        assert(kept.contains(kept[j]));
    }
    lemma_filter_keeps_all(kept, other_than(key));
}

} // verus!
