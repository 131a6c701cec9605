//! Error taxonomy of the request interface.

use vstd::prelude::*;

verus! {

/// Coarse category of a failure, as reported to the transport layer.
#[derive(Clone, Copy, Debug, PartialEq, Eq, Structural)]
pub enum ErrorKind {
    /// The session credential is unknown.
    Unauthorized,
    /// A required field is empty, or a user named themselves as contact.
    InvalidInput,
    /// The username is already registered.
    AlreadyExists,
    /// A referenced user is absent from the identity store.
    NotFound,
    /// Login failed; it is not told apart whether name or password was wrong.
    InvalidCredentials,
    /// The password hasher reported a failure.
    Internal,
}

impl ErrorKind {
    /// Status that the transport layer reports for a failure of this kind:
    /// unauthorized, conflict, or bad request for everything else.
    pub open spec fn spec_status_code(self) -> u16 {
        match self {
            ErrorKind::Unauthorized => 401,
            ErrorKind::InvalidCredentials => 401,
            ErrorKind::AlreadyExists => 409,
            ErrorKind::InvalidInput => 400,
            ErrorKind::NotFound => 400,
            ErrorKind::Internal => 400,
        }
    }

    /// Status that the transport layer reports for a failure of this kind.
    #[verifier::when_used_as_spec(spec_status_code)]
    pub fn status_code(self) -> (code: u16)
        ensures
            code == self.spec_status_code(),
    {
        match self {
            ErrorKind::Unauthorized => 401,
            ErrorKind::InvalidCredentials => 401,
            ErrorKind::AlreadyExists => 409,
            ErrorKind::InvalidInput => 400,
            ErrorKind::NotFound => 400,
            ErrorKind::Internal => 400,
        }
    }
}

/// Every way a request can fail.
#[derive(Clone, Copy, Debug, PartialEq, Eq, Structural)]
pub enum ChatError {
    /// Username or password of a registration or login is empty.
    MissingCredentials,
    /// Registration of a username that is taken.
    UsernameTaken,
    /// The password could not be hashed.
    HashingFailed,
    /// Unknown username or wrong password at login.
    BadLogin,
    /// The contact name of an add-contact request is empty.
    EmptyContact,
    /// A user tried to add themselves as a contact.
    SelfContact,
    /// The user behind the session is no longer in the identity store.
    SessionUserMissing,
    /// The named contact is not registered.
    ContactUnknown,
    /// The presented session credential resolves to no session.
    BadSession,
}

/// Error payload handed back to the client.
#[derive(Debug, PartialEq, Eq)]
pub struct ErrorResponse {
    pub message: String,
}

impl View for ErrorResponse {
    type V = Seq<char>;

    open spec fn view(&self) -> Seq<char> {
        self.message@
    }
}

impl ChatError {
    /// Category of this error.
    pub open spec fn spec_kind(self) -> ErrorKind {
        match self {
            ChatError::MissingCredentials => ErrorKind::InvalidInput,
            ChatError::UsernameTaken => ErrorKind::AlreadyExists,
            ChatError::HashingFailed => ErrorKind::Internal,
            ChatError::BadLogin => ErrorKind::InvalidCredentials,
            ChatError::EmptyContact => ErrorKind::InvalidInput,
            ChatError::SelfContact => ErrorKind::InvalidInput,
            ChatError::SessionUserMissing => ErrorKind::NotFound,
            ChatError::ContactUnknown => ErrorKind::NotFound,
            ChatError::BadSession => ErrorKind::Unauthorized,
        }
    }

    /// Text shown to the client for this error.
    pub open spec fn spec_message(self) -> Seq<char> {
        match self {
            ChatError::MissingCredentials => "Username and password are required."@,
            ChatError::UsernameTaken => "Username already exists."@,
            ChatError::HashingFailed => "Failed to hash password."@,
            ChatError::BadLogin => "Invalid username or password."@,
            ChatError::EmptyContact => "contact_username cannot be empty"@,
            ChatError::SelfContact => "You cannot add yourself as a contact."@,
            ChatError::SessionUserMissing => "User session invalid or user data missing."@,
            ChatError::ContactUnknown => "User not found"@,
            ChatError::BadSession => "Unauthorized: Invalid session key."@,
        }
    }

    /// Category of this error.
    #[verifier::when_used_as_spec(spec_kind)]
    pub fn kind(self) -> (k: ErrorKind)
        ensures
            k == self.spec_kind(),
    {
        match self {
            ChatError::MissingCredentials => ErrorKind::InvalidInput,
            ChatError::UsernameTaken => ErrorKind::AlreadyExists,
            ChatError::HashingFailed => ErrorKind::Internal,
            ChatError::BadLogin => ErrorKind::InvalidCredentials,
            ChatError::EmptyContact => ErrorKind::InvalidInput,
            ChatError::SelfContact => ErrorKind::InvalidInput,
            ChatError::SessionUserMissing => ErrorKind::NotFound,
            ChatError::ContactUnknown => ErrorKind::NotFound,
            ChatError::BadSession => ErrorKind::Unauthorized,
        }
    }

    /// The message of this error as an owned string.
    pub fn message(self) -> (m: String)
        ensures
            m@ == self.spec_message(),
    {
        match self {
            ChatError::MissingCredentials => "Username and password are required.".to_owned(),
            ChatError::UsernameTaken => "Username already exists.".to_owned(),
            ChatError::HashingFailed => "Failed to hash password.".to_owned(),
            ChatError::BadLogin => "Invalid username or password.".to_owned(),
            ChatError::EmptyContact => "contact_username cannot be empty".to_owned(),
            ChatError::SelfContact => "You cannot add yourself as a contact.".to_owned(),
            ChatError::SessionUserMissing => "User session invalid or user data missing.".to_owned(),
            ChatError::ContactUnknown => "User not found".to_owned(),
            ChatError::BadSession => "Unauthorized: Invalid session key.".to_owned(),
        }
    }

    /// The payload that reports this error to the client.
    pub fn response(self) -> (r: ErrorResponse)
        ensures
            r@ == self.spec_message(),
    {
        ErrorResponse { message: self.message() }
    }
}

} // verus!
