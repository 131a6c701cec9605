use rust_chat::{
    add_contact_handler, conclude_login, create_session, create_session_with, enroll_with,
    get_contacts_handler, login_handler, register_handler, validate_registration, AddContactPayload,
    AppState, AuthPayload, AuthResponse, ChatError, UserDTO, UserId, UserSession,
};

// Hash of the word "password", made at the lowest cost.
const HASH_OF_PASSWORD: &str = "$2a$04$UuTkLRZZ6QofpDOlMz32MuuxEHA43WOemOYHPz6.SjsVsyO1tDU96";

fn payload(username: &str, password: &str) -> AuthPayload {
    AuthPayload { username: username.to_string(), password: password.to_string() }
}

fn enroll(state: &mut AppState<u32>, name: &str, id: u128, key: &str) -> AuthResponse {
    enroll_with(
        payload(name, "password"),
        HASH_OF_PASSWORD.to_string(),
        UserId(id),
        key.to_string(),
        state,
    )
    .unwrap()
}

fn session(user: u128, name: &str, key: &str) -> UserSession {
    UserSession { user_id: UserId(user), username: name.to_string(), session_key: key.to_string() }
}

fn contact(id: u128, name: &str) -> UserDTO {
    UserDTO { id: UserId(id), username: name.to_string() }
}

#[test]
fn enrolling_answers_with_the_session() {
    let mut state: AppState<u32> = AppState::new();
    let answer = enroll(&mut state, "alice", 1, "k1");
    assert_eq!(
        answer,
        AuthResponse {
            message: "Authentication successful".to_string(),
            session_key: "k1".to_string(),
            user_id: UserId(1),
            username: "alice".to_string(),
        }
    );
    assert_eq!(state.users.len(), 1);
    assert_eq!(state.user_sessions.len(), 1);
    assert_eq!(state.authenticate("k1"), Ok(session(1, "alice", "k1")));
    assert_eq!(
        state.users.get("alice").map(|u| u.password_hash().clone()),
        Some(HASH_OF_PASSWORD.to_string())
    );
}

#[test]
fn registration_needs_name_and_password() {
    let mut state: AppState<u32> = AppState::new();
    assert_eq!(validate_registration(&payload("", "pw"), &state), Err(ChatError::MissingCredentials));
    assert_eq!(validate_registration(&payload("alice", ""), &state), Err(ChatError::MissingCredentials));
    assert_eq!(validate_registration(&payload("", ""), &state), Err(ChatError::MissingCredentials));
    assert_eq!(validate_registration(&payload("alice", "pw"), &state), Ok(()));
    assert_eq!(register_handler(payload("", "pw"), &mut state), Err(ChatError::MissingCredentials));
    assert_eq!(register_handler(payload("alice", ""), &mut state), Err(ChatError::MissingCredentials));
    assert_eq!(state.users.len(), 0);
    assert_eq!(state.user_sessions.len(), 0);
}

#[test]
fn second_registration_of_a_name_fails() {
    let mut state: AppState<u32> = AppState::new();
    enroll(&mut state, "alice", 1, "k1");
    let again = enroll_with(
        payload("alice", "other"),
        "other hash".to_string(),
        UserId(2),
        "k2".to_string(),
        &mut state,
    );
    assert_eq!(again, Err(ChatError::UsernameTaken));
    assert_eq!(register_handler(payload("alice", "third"), &mut state), Err(ChatError::UsernameTaken));
    assert_eq!(state.users.len(), 1);
    assert_eq!(state.users.get("alice").map(|u| u.id()), Some(UserId(1)));
    assert_eq!(state.user_sessions.len(), 1);
    assert_eq!(state.authenticate("k1"), Ok(session(1, "alice", "k1")));
    assert_eq!(state.authenticate("k2"), Err(ChatError::BadSession));
}

#[test]
fn empty_fields_come_before_a_taken_name() {
    let mut state: AppState<u32> = AppState::new();
    enroll(&mut state, "alice", 1, "k1");
    assert_eq!(validate_registration(&payload("alice", ""), &state), Err(ChatError::MissingCredentials));
    assert_eq!(validate_registration(&payload("alice", "pw"), &state), Err(ChatError::UsernameTaken));
}

#[test]
fn registering_draws_identifier_and_credential() {
    let mut state: AppState<u32> = AppState::new();
    let answer = register_handler(payload("alice", "correct horse"), &mut state).unwrap();
    assert_eq!(answer.message, "Authentication successful");
    assert_eq!(answer.username, "alice");
    assert_eq!(answer.session_key.chars().count(), 36);
    assert_eq!(answer.user_id.0 & 0xf000_c000_0000_0000_0000, 0x4000_8000_0000_0000_0000);
    assert_eq!(state.authenticate(&answer.session_key), Ok(session(answer.user_id.0, "alice", &answer.session_key)));
    let stored = state.users.get("alice").map(|u| u.password_hash().clone()).unwrap();
    assert_ne!(stored, "correct horse");
    assert_eq!(state.users.get("alice").map(|u| u.id()), Some(answer.user_id));
}

#[test]
fn login_with_the_stored_password_opens_a_session() {
    let mut state: AppState<u32> = AppState::new();
    enroll(&mut state, "alice", 1, "k1");
    let answer = login_handler(payload("alice", "password"), &mut state).unwrap();
    assert_eq!(answer.user_id, UserId(1));
    assert_eq!(answer.username, "alice");
    assert_eq!(answer.message, "Authentication successful");
    assert_eq!(answer.session_key.chars().count(), 36);
    assert_eq!(state.user_sessions.len(), 1);
    assert_eq!(state.authenticate("k1"), Err(ChatError::BadSession));
    assert_eq!(state.authenticate(&answer.session_key), Ok(session(1, "alice", &answer.session_key)));
}

#[test]
fn login_failures_are_told_apart_only_by_empty_fields() {
    let mut state: AppState<u32> = AppState::new();
    enroll(&mut state, "alice", 1, "k1");
    assert_eq!(login_handler(payload("", "password"), &mut state), Err(ChatError::MissingCredentials));
    assert_eq!(login_handler(payload("alice", ""), &mut state), Err(ChatError::MissingCredentials));
    assert_eq!(login_handler(payload("alice", "Password"), &mut state), Err(ChatError::BadLogin));
    assert_eq!(login_handler(payload("bob", "password"), &mut state), Err(ChatError::BadLogin));
    assert_eq!(login_handler(payload("alice", HASH_OF_PASSWORD), &mut state), Err(ChatError::BadLogin));
    assert_eq!(state.authenticate("k1"), Ok(session(1, "alice", "k1")));
    assert_eq!(state.user_sessions.len(), 1);
}

#[test]
fn malformed_stored_hash_lets_nobody_in() {
    let mut state: AppState<u32> = AppState::new();
    enroll_with(payload("alice", "password"), "password".to_string(), UserId(1), "k1".to_string(), &mut state)
        .unwrap();
    assert_eq!(login_handler(payload("alice", "password"), &mut state), Err(ChatError::BadLogin));
}

#[test]
fn only_a_plain_yes_concludes_a_login() {
    let mut state: AppState<u32> = AppState::new();
    enroll(&mut state, "alice", 1, "k1");
    let alice = contact(1, "alice");
    assert_eq!(conclude_login(&alice, None, &mut state), Err(ChatError::BadLogin));
    assert_eq!(conclude_login(&alice, Some(false), &mut state), Err(ChatError::BadLogin));
    assert_eq!(state.authenticate("k1"), Ok(session(1, "alice", "k1")));
    let answer = conclude_login(&alice, Some(true), &mut state).unwrap();
    assert_eq!(answer.user_id, UserId(1));
    assert_eq!(state.authenticate("k1"), Err(ChatError::BadSession));
    assert_eq!(state.authenticate(&answer.session_key), Ok(session(1, "alice", &answer.session_key)));
}

#[test]
fn creating_a_session_leaves_exactly_one_per_user() {
    let mut state: AppState<u32> = AppState::new();
    enroll(&mut state, "alice", 1, "k1");
    enroll(&mut state, "bob", 2, "k2");
    state.active_connections.register("k1".to_string(), 10);
    state.active_connections.register("k2".to_string(), 20);
    let answer = create_session_with(&contact(1, "alice"), "k1b".to_string(), &mut state);
    assert_eq!(answer.session_key, "k1b");
    assert_eq!(state.user_sessions.len(), 2);
    assert_eq!(state.user_sessions.current(UserId(1)), Some(session(1, "alice", "k1b")));
    assert_eq!(state.authenticate("k1"), Err(ChatError::BadSession));
    assert_eq!(state.active_connections.channel_of("k1"), None);
    assert_eq!(state.active_connections.channel_of("k2"), Some(&20));
    assert_eq!(state.active_connections.len(), 1);
}

#[test]
fn first_session_closes_no_connection() {
    let mut state: AppState<u32> = AppState::new();
    state.active_connections.register("k9".to_string(), 90);
    let answer = create_session(&contact(1, "alice"), &mut state);
    assert_eq!(answer.session_key.chars().count(), 36);
    assert_eq!(answer.user_id, UserId(1));
    assert_eq!(state.active_connections.len(), 1);
    assert_eq!(state.user_sessions.current(UserId(1)), Some(session(1, "alice", &answer.session_key)));
}

#[test]
fn fresh_credentials_differ() {
    let mut state: AppState<u32> = AppState::new();
    let first = create_session(&contact(1, "alice"), &mut state);
    let second = create_session(&contact(1, "alice"), &mut state);
    assert_ne!(first.session_key, second.session_key);
    assert_eq!(state.user_sessions.len(), 1);
    assert_eq!(state.authenticate(&first.session_key), Err(ChatError::BadSession));
}

#[test]
fn unknown_credential_is_unauthorized() {
    let mut state: AppState<u32> = AppState::new();
    enroll(&mut state, "alice", 1, "k1");
    assert_eq!(state.authenticate("alice"), Err(ChatError::BadSession));
    assert_eq!(state.authenticate(""), Err(ChatError::BadSession));
    assert_eq!(state.authenticate("K1"), Err(ChatError::BadSession));
}

#[test]
fn contact_handlers_work_on_the_session_user() {
    let mut state: AppState<u32> = AppState::new();
    enroll(&mut state, "alice", 1, "k1");
    enroll(&mut state, "bob", 2, "k2");
    let alice = session(1, "alice", "k1");
    let bob = session(2, "bob", "k2");
    let added = add_contact_handler(
        AddContactPayload { contact_username: "bob".to_string() },
        &alice,
        &mut state,
    );
    assert_eq!(added, Ok(()));
    assert_eq!(get_contacts_handler(&alice, &state), Ok(vec![contact(2, "bob")]));
    assert_eq!(get_contacts_handler(&bob, &state), Ok(vec![contact(1, "alice")]));
}

#[test]
fn contact_handler_rejects_bad_requests() {
    let mut state: AppState<u32> = AppState::new();
    enroll(&mut state, "alice", 1, "k1");
    let alice = session(1, "alice", "k1");
    let ghost = session(7, "ghost", "k7");
    let add = |name: &str, who: &UserSession, state: &mut AppState<u32>| {
        add_contact_handler(AddContactPayload { contact_username: name.to_string() }, who, state)
    };
    assert_eq!(add("", &alice, &mut state), Err(ChatError::EmptyContact));
    assert_eq!(add("alice", &alice, &mut state), Err(ChatError::SelfContact));
    assert_eq!(add("nobody", &alice, &mut state), Err(ChatError::ContactUnknown));
    assert_eq!(add("alice", &ghost, &mut state), Err(ChatError::SessionUserMissing));
    assert_eq!(get_contacts_handler(&ghost, &state), Err(ChatError::SessionUserMissing));
    assert_eq!(get_contacts_handler(&alice, &state), Ok(vec![]));
}
