//! The events that travel over a connection, inbound and outbound.

use vstd::prelude::*;
use crate::records::SessionView;
use crate::stamps::UserId;

verus! {

/// An event sent by a client.
#[derive(Debug, PartialEq, Eq)]
pub enum ClientMessage {
    /// A chat text for the user `to_user_id`.
    ChatMessage { to_user_id: UserId, message: String },
    /// The sender started or stopped typing to the user `to_user_id`.
    TypingIndicator { to_user_id: UserId, is_typing: bool },
    /// The sender has read the message `message_id`; `to_user_id` is the
    /// user who sent that message.
    ReadReceipt { to_user_id: UserId, message_id: String },
}

/// What a [`ClientMessage`] is in contracts.
pub ghost enum ClientMessageView {
    ChatMessage { to_user_id: UserId, message: Seq<char> },
    TypingIndicator { to_user_id: UserId, is_typing: bool },
    ReadReceipt { to_user_id: UserId, message_id: Seq<char> },
}

impl View for ClientMessage {
    type V = ClientMessageView;

    open spec fn view(&self) -> ClientMessageView {
        match self {
            ClientMessage::ChatMessage { to_user_id, message } => ClientMessageView::ChatMessage {
                to_user_id: *to_user_id,
                message: message@,
            },
            ClientMessage::TypingIndicator {
                to_user_id,
                is_typing,
            } => ClientMessageView::TypingIndicator {
                to_user_id: *to_user_id,
                is_typing: *is_typing,
            },
            ClientMessage::ReadReceipt { to_user_id, message_id } => ClientMessageView::ReadReceipt {
                to_user_id: *to_user_id,
                message_id: message_id@,
            },
        }
    }
}

impl Clone for ClientMessage {
    fn clone(&self) -> (copy: ClientMessage)
        ensures
            copy@ == self@,
    {
        match self {
            ClientMessage::ChatMessage { to_user_id, message } => ClientMessage::ChatMessage {
                to_user_id: *to_user_id,
                message: message.clone(),
            },
            ClientMessage::TypingIndicator { to_user_id, is_typing } => ClientMessage::TypingIndicator {
                to_user_id: *to_user_id,
                is_typing: *is_typing,
            },
            ClientMessage::ReadReceipt { to_user_id, message_id } => ClientMessage::ReadReceipt {
                to_user_id: *to_user_id,
                message_id: message_id.clone(),
            },
        }
    }
}

impl ClientMessageView {
    /// The user that the event is addressed to.
    pub open spec fn target(self) -> UserId {
        match self {
            ClientMessageView::ChatMessage { to_user_id, .. } => to_user_id,
            ClientMessageView::TypingIndicator { to_user_id, .. } => to_user_id,
            ClientMessageView::ReadReceipt { to_user_id, .. } => to_user_id,
        }
    }
}

/// Presence of a user.
#[derive(Clone, Copy, Debug, PartialEq, Eq, Structural)]
pub enum Status {
    Online,
    Offline,
}

impl Status {
    /// The word that stands for the status on the wire.
    pub open spec fn spec_label(self) -> Seq<char> {
        match self {
            Status::Online => "online"@,
            Status::Offline => "offline"@,
        }
    }

    /// The word that stands for the status on the wire.
    pub fn label(self) -> (word: &'static str)
        ensures
            word@ == self.spec_label(),
    {
        match self {
            Status::Online => "online",
            Status::Offline => "offline",
        }
    }
}

/// An event sent to clients.
#[derive(Debug, PartialEq, Eq)]
pub enum ServerMessage {
    /// A chat text, stamped by the relay.
    ChatMessage {
        from_user_id: UserId,
        from_username: String,
        to_user_id: UserId,
        message_id: String,
        timestamp: String,
        message: String,
    },
    /// A user came online or went offline.
    StatusMessage { user_id: UserId, username: String, status: Status },
    /// The user `from_user_id` has read the message `message_id`.
    ReadReceipt { from_user_id: UserId, message_id: String },
    /// The user `from_user_id` started or stopped typing.
    TypingIndicator { from_user_id: UserId, is_typing: bool },
}

/// What a [`ServerMessage`] is in contracts.
pub ghost enum ServerMessageView {
    ChatMessage {
        from_user_id: UserId,
        from_username: Seq<char>,
        to_user_id: UserId,
        message_id: Seq<char>,
        timestamp: Seq<char>,
        message: Seq<char>,
    },
    StatusMessage { user_id: UserId, username: Seq<char>, status: Status },
    ReadReceipt { from_user_id: UserId, message_id: Seq<char> },
    TypingIndicator { from_user_id: UserId, is_typing: bool },
}

impl View for ServerMessage {
    type V = ServerMessageView;

    open spec fn view(&self) -> ServerMessageView {
        match self {
            ServerMessage::ChatMessage {
                from_user_id,
                from_username,
                to_user_id,
                message_id,
                timestamp,
                message,
            } => ServerMessageView::ChatMessage {
                from_user_id: *from_user_id,
                from_username: from_username@,
                to_user_id: *to_user_id,
                message_id: message_id@,
                timestamp: timestamp@,
                message: message@,
            },
            ServerMessage::StatusMessage {
                user_id,
                username,
                status,
            } => ServerMessageView::StatusMessage {
                user_id: *user_id,
                username: username@,
                status: *status,
            },
            ServerMessage::ReadReceipt { from_user_id, message_id } => ServerMessageView::ReadReceipt {
                from_user_id: *from_user_id,
                message_id: message_id@,
            },
            ServerMessage::TypingIndicator {
                from_user_id,
                is_typing,
            } => ServerMessageView::TypingIndicator {
                from_user_id: *from_user_id,
                is_typing: *is_typing,
            },
        }
    }
}

impl Clone for ServerMessage {
    fn clone(&self) -> (copy: ServerMessage)
        ensures
            copy@ == self@,
    {
        match self {
            ServerMessage::ChatMessage {
                from_user_id,
                from_username,
                to_user_id,
                message_id,
                timestamp,
                message,
            } => ServerMessage::ChatMessage {
                from_user_id: *from_user_id,
                from_username: from_username.clone(),
                to_user_id: *to_user_id,
                message_id: message_id.clone(),
                timestamp: timestamp.clone(),
                message: message.clone(),
            },
            ServerMessage::StatusMessage { user_id, username, status } => ServerMessage::StatusMessage {
                user_id: *user_id,
                username: username.clone(),
                status: *status,
            },
            ServerMessage::ReadReceipt { from_user_id, message_id } => ServerMessage::ReadReceipt {
                from_user_id: *from_user_id,
                message_id: message_id.clone(),
            },
            ServerMessage::TypingIndicator { from_user_id, is_typing } => ServerMessage::TypingIndicator {
                from_user_id: *from_user_id,
                is_typing: *is_typing,
            },
        }
    }
}

/// Message identifier and time that the relay puts on a chat message.
#[derive(Debug, PartialEq, Eq)]
pub struct Stamp {
    pub message_id: String,
    pub timestamp: String,
}

/// What a [`Stamp`] is in contracts.
pub ghost struct StampView {
    pub message_id: Seq<char>,
    pub timestamp: Seq<char>,
}

impl View for Stamp {
    type V = StampView;

    open spec fn view(&self) -> StampView {
        StampView { message_id: self.message_id@, timestamp: self.timestamp@ }
    }
}

/// The outbound event that relays `message` on behalf of `sender`. The
/// stamp goes on a chat message and nowhere else.
pub open spec fn relayed(
    message: ClientMessageView,
    sender: SessionView,
    stamp: StampView,
) -> ServerMessageView {
    match message {
        ClientMessageView::ChatMessage { to_user_id, message } => ServerMessageView::ChatMessage {
            from_user_id: sender.user_id,
            from_username: sender.username,
            to_user_id,
            message_id: stamp.message_id,
            timestamp: stamp.timestamp,
            message,
        },
        ClientMessageView::TypingIndicator {
            is_typing,
            ..
        } => ServerMessageView::TypingIndicator { from_user_id: sender.user_id, is_typing },
        ClientMessageView::ReadReceipt {
            message_id,
            ..
        } => ServerMessageView::ReadReceipt { from_user_id: sender.user_id, message_id },
    }
}

/// The outbound event that announces the presence of the user behind
/// `session`.
pub open spec fn announced(session: SessionView, status: Status) -> ServerMessageView {
    ServerMessageView::StatusMessage {
        user_id: session.user_id,
        username: session.username,
        status,
    }
}

} // verus!
