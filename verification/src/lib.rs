//! Session directory, connection registry and message routing for a
//! real-time chat relay.
//!
//! The crate keeps every piece of relay state in one [`AppState`] value and
//! exposes the request operations (registration, login, contacts) and the
//! connection life cycle (open, inbound frame, close) as functions from the
//! current state and an input to the next state and the frames to deliver.

pub mod connections;
pub mod errors;
pub mod handlers;
pub mod identity;
pub mod laws;
pub mod messages;
pub mod passwords;
pub mod records;
pub mod router;
pub mod seqs;
pub mod sessions;
pub mod state;
pub mod stamps;

pub use connections::{Connection, ConnectionRegistry};
pub use errors::{ChatError, ErrorKind, ErrorResponse};
pub use handlers::{
    add_contact_handler, conclude_login, enroll_with, get_contacts_handler, login_handler,
    register_handler, validate_registration,
};
pub use identity::{IdentityStore, User};
pub use messages::{ClientMessage, ServerMessage, Stamp, Status};
pub use records::{AddContactPayload, AuthPayload, AuthResponse, UserDTO, UserSession};
pub use router::{
    broadcast_status, handle_client_message, handle_ws, relay_chat, relay_receipt, relay_typing,
    ConnectionEvent, Delivery,
};
pub use sessions::SessionDirectory;
pub use stamps::UserId;
pub use state::{create_session, create_session_with, AppState};
