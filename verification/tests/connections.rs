use rust_chat::{ConnectionRegistry, SessionDirectory, UserId, UserSession};

fn session(user: u128, name: &str, key: &str) -> UserSession {
    UserSession { user_id: UserId(user), username: name.to_string(), session_key: key.to_string() }
}

fn tags(found: &[&rust_chat::Connection<u32>]) -> Vec<(String, u32)> {
    found.iter().map(|c| (c.credential().clone(), *c.channel())).collect()
}

#[test]
fn empty_registry_has_no_channel() {
    let registry: ConnectionRegistry<u32> = ConnectionRegistry::new();
    assert_eq!(registry.len(), 0);
    assert_eq!(registry.channel_of("k1"), None);
    assert!(registry.all_except("k1").is_empty());
}

#[test]
fn registered_channel_is_found_by_credential() {
    let mut registry: ConnectionRegistry<u32> = ConnectionRegistry::new();
    assert_eq!(registry.register("k1".to_string(), 10), None);
    assert_eq!(registry.register("k2".to_string(), 20), None);
    assert_eq!(registry.len(), 2);
    assert_eq!(registry.channel_of("k1"), Some(&10));
    assert_eq!(registry.channel_of("k2"), Some(&20));
    assert_eq!(registry.channel_of("k3"), None);
}

#[test]
fn registering_twice_replaces_the_channel() {
    let mut registry: ConnectionRegistry<u32> = ConnectionRegistry::new();
    registry.register("k1".to_string(), 10);
    registry.register("k2".to_string(), 20);
    assert_eq!(registry.register("k1".to_string(), 11), Some(10));
    assert_eq!(registry.len(), 2);
    assert_eq!(registry.channel_of("k1"), Some(&11));
    assert_eq!(
        tags(&registry.all_except("none")),
        vec![("k2".to_string(), 20), ("k1".to_string(), 11)]
    );
}

#[test]
fn unregister_is_idempotent() {
    let mut registry: ConnectionRegistry<u32> = ConnectionRegistry::new();
    registry.register("k1".to_string(), 10);
    registry.register("k2".to_string(), 20);
    assert_eq!(registry.unregister("k1"), Some(10));
    assert_eq!(registry.unregister("k1"), None);
    assert_eq!(registry.unregister("k9"), None);
    assert_eq!(registry.len(), 1);
    assert_eq!(registry.channel_of("k1"), None);
    assert_eq!(registry.channel_of("k2"), Some(&20));
}

#[test]
fn all_except_leaves_out_one_credential() {
    let mut registry: ConnectionRegistry<u32> = ConnectionRegistry::new();
    registry.register("k1".to_string(), 10);
    registry.register("k2".to_string(), 20);
    registry.register("k3".to_string(), 30);
    assert_eq!(
        tags(&registry.all_except("k2")),
        vec![("k1".to_string(), 10), ("k3".to_string(), 30)]
    );
    assert_eq!(tags(&registry.all_except("k9")).len(), 3);
}

#[test]
fn channels_for_user_follow_the_session_directory() {
    let mut sessions = SessionDirectory::new();
    sessions.install(session(1, "alice", "k1"));
    sessions.install(session(2, "bob", "k2"));
    let mut registry: ConnectionRegistry<u32> = ConnectionRegistry::new();
    registry.register("k1".to_string(), 10);
    registry.register("k2".to_string(), 20);
    registry.register("stale".to_string(), 99);
    assert_eq!(tags(&registry.channels_for_user(&sessions, UserId(1))), vec![("k1".to_string(), 10)]);
    assert_eq!(tags(&registry.channels_for_user(&sessions, UserId(2))), vec![("k2".to_string(), 20)]);
    assert!(registry.channels_for_user(&sessions, UserId(3)).is_empty());
}

#[test]
fn channels_for_two_users_list_each_connection_once() {
    let mut sessions = SessionDirectory::new();
    sessions.install(session(1, "alice", "k1"));
    sessions.install(session(2, "bob", "k2"));
    sessions.install(session(3, "carol", "k3"));
    let mut registry: ConnectionRegistry<u32> = ConnectionRegistry::new();
    registry.register("k1".to_string(), 10);
    registry.register("stale".to_string(), 99);
    registry.register("k2".to_string(), 20);
    registry.register("k3".to_string(), 30);
    assert_eq!(
        tags(&registry.channels_for_users(&sessions, UserId(3), UserId(1))),
        vec![("k1".to_string(), 10), ("k3".to_string(), 30)]
    );
    assert_eq!(
        tags(&registry.channels_for_users(&sessions, UserId(2), UserId(2))),
        vec![("k2".to_string(), 20)]
    );
    assert_eq!(
        tags(&registry.channels_for_users(&sessions, UserId(2), UserId(7))),
        vec![("k2".to_string(), 20)]
    );
    assert!(registry.channels_for_users(&sessions, UserId(7), UserId(8)).is_empty());
}

#[test]
fn session_without_connection_has_no_channel() {
    let mut sessions = SessionDirectory::new();
    sessions.install(session(1, "alice", "k1"));
    let registry: ConnectionRegistry<u32> = ConnectionRegistry::new();
    assert!(registry.channels_for_user(&sessions, UserId(1)).is_empty());
}
