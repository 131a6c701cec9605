use rust_chat::{
    handle_ws, login_handler, register_handler, AppState, AuthPayload, ChatError, ClientMessage,
    Connection, ConnectionEvent, ServerMessage, Status,
};
use std::cell::RefCell;
use std::rc::Rc;

// A channel that keeps what was sent through it.
type Inbox = Rc<RefCell<Vec<ServerMessage>>>;

fn payload(username: &str, password: &str) -> AuthPayload {
    AuthPayload { username: username.to_string(), password: password.to_string() }
}

fn step(state: &mut AppState<Inbox>, key: &str, event: ConnectionEvent<Inbox>) {
    let session = state.authenticate(key).unwrap();
    let delivery = handle_ws(event, &session, state);
    let recipients: &Vec<&Connection<Inbox>> = &delivery.recipients;
    for connection in recipients {
        connection.channel().borrow_mut().push(delivery.message.clone());
    }
}

#[test]
fn two_users_meet_and_chat() {
    let mut state: AppState<Inbox> = AppState::new();
    let alice = register_handler(payload("alice", "a-secret"), &mut state).unwrap();
    let alice_inbox: Inbox = Rc::new(RefCell::new(Vec::new()));
    step(&mut state, &alice.session_key, ConnectionEvent::Opened(alice_inbox.clone()));
    assert!(alice_inbox.borrow().is_empty());

    let bob = register_handler(payload("bob", "b-secret"), &mut state).unwrap();
    let bob_inbox: Inbox = Rc::new(RefCell::new(Vec::new()));
    step(&mut state, &bob.session_key, ConnectionEvent::Opened(bob_inbox.clone()));
    assert_eq!(
        *alice_inbox.borrow(),
        vec![ServerMessage::StatusMessage {
            user_id: bob.user_id,
            username: "bob".to_string(),
            status: Status::Online
        }]
    );
    assert!(bob_inbox.borrow().is_empty());

    step(
        &mut state,
        &bob.session_key,
        ConnectionEvent::Frame(ClientMessage::ChatMessage {
            to_user_id: alice.user_id,
            message: "hi".to_string(),
        }),
    );
    assert_eq!(alice_inbox.borrow().len(), 2);
    assert_eq!(bob_inbox.borrow().len(), 1);
    let at_alice = alice_inbox.borrow()[1].clone();
    let at_bob = bob_inbox.borrow()[0].clone();
    assert_eq!(at_alice, at_bob);
    match at_alice {
        ServerMessage::ChatMessage { from_user_id, from_username, to_user_id, message, message_id, .. } => {
            assert_eq!(from_user_id, bob.user_id);
            assert_eq!(from_username, "bob");
            assert_eq!(to_user_id, alice.user_id);
            assert_eq!(message, "hi");
            assert_eq!(message_id.chars().count(), 36);
        },
        other => panic!("not a chat message: {:?}", other),
    }
}

#[test]
fn second_login_cuts_off_the_first_connection() {
    let mut state: AppState<Inbox> = AppState::new();
    let first = register_handler(payload("alice", "a-secret"), &mut state).unwrap();
    let inbox: Inbox = Rc::new(RefCell::new(Vec::new()));
    step(&mut state, &first.session_key, ConnectionEvent::Opened(inbox.clone()));
    assert_eq!(Rc::strong_count(&inbox), 2);

    let second = login_handler(payload("alice", "a-secret"), &mut state).unwrap();
    assert_ne!(second.session_key, first.session_key);
    assert_eq!(second.user_id, first.user_id);
    assert_eq!(state.authenticate(&first.session_key).err(), Some(ChatError::BadSession));
    assert!(state.authenticate(&second.session_key).is_ok());
    assert!(state.active_connections.channel_of(&first.session_key).is_none());
    assert_eq!(state.active_connections.len(), 0);
    assert_eq!(state.user_sessions.len(), 1);
    // The registry gave up its handle: the channel is closed on its side.
    assert_eq!(Rc::strong_count(&inbox), 1);
}

#[test]
fn presence_is_never_told_to_its_own_connection() {
    let mut state: AppState<Inbox> = AppState::new();
    let alice = register_handler(payload("alice", "a-secret"), &mut state).unwrap();
    let bob = register_handler(payload("bob", "b-secret"), &mut state).unwrap();
    let alice_inbox: Inbox = Rc::new(RefCell::new(Vec::new()));
    let bob_inbox: Inbox = Rc::new(RefCell::new(Vec::new()));
    step(&mut state, &alice.session_key, ConnectionEvent::Opened(alice_inbox.clone()));
    step(&mut state, &bob.session_key, ConnectionEvent::Opened(bob_inbox.clone()));
    step(&mut state, &alice.session_key, ConnectionEvent::Closed);
    assert_eq!(
        *alice_inbox.borrow(),
        vec![ServerMessage::StatusMessage {
            user_id: bob.user_id,
            username: "bob".to_string(),
            status: Status::Online
        }]
    );
    assert_eq!(
        *bob_inbox.borrow(),
        vec![ServerMessage::StatusMessage {
            user_id: alice.user_id,
            username: "alice".to_string(),
            status: Status::Offline
        }]
    );
}
