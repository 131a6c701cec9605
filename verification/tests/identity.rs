use rust_chat::{ChatError, IdentityStore, User, UserDTO, UserId};

fn contact(id: u128, name: &str) -> UserDTO {
    UserDTO { id: UserId(id), username: name.to_string() }
}

fn by_id(mut list: Vec<UserDTO>) -> Vec<UserDTO> {
    list.sort_by_key(|c| c.id.0);
    list
}

fn store_of(names: &[(u128, &str)]) -> IdentityStore {
    let mut store = IdentityStore::new();
    for (id, name) in names {
        store.add(UserId(*id), name.to_string(), "hash".to_string()).unwrap();
    }
    store
}

#[test]
fn new_user_has_no_contacts() {
    let user = User::new(UserId(1), "alice".to_string(), "hash".to_string());
    assert_eq!(user.id(), UserId(1));
    assert_eq!(user.username(), "alice");
    assert_eq!(user.password_hash(), "hash");
    assert!(user.contacts().is_empty());
    assert_eq!(user.summary(), contact(1, "alice"));
}

#[test]
fn contact_with_known_id_is_overwritten() {
    let mut user = User::new(UserId(1), "alice".to_string(), "hash".to_string());
    user.add_contact(contact(2, "bob"));
    user.add_contact(contact(3, "carol"));
    user.add_contact(contact(2, "robert"));
    assert_eq!(by_id(user.contacts()), vec![contact(2, "robert"), contact(3, "carol")]);
}

#[test]
fn store_finds_users_by_name() {
    let store = store_of(&[(1, "alice"), (2, "bob")]);
    assert_eq!(store.len(), 2);
    assert!(store.contains("alice"));
    assert!(!store.contains("carol"));
    assert!(!store.contains(""));
    assert_eq!(store.get("bob").map(|u| u.id()), Some(UserId(2)));
    assert!(store.get("Bob").is_none());
}

#[test]
fn taken_name_is_not_added_again() {
    let mut store = store_of(&[(1, "alice")]);
    let again = store.add(UserId(9), "alice".to_string(), "other".to_string());
    assert_eq!(again, Err(ChatError::UsernameTaken));
    assert_eq!(store.len(), 1);
    assert_eq!(store.get("alice").map(|u| u.id()), Some(UserId(1)));
    assert_eq!(store.get("alice").map(|u| u.password_hash().clone()), Some("hash".to_string()));
}

#[test]
fn added_contacts_are_mutual() {
    let mut store = store_of(&[(1, "alice"), (2, "bob"), (3, "carol")]);
    assert_eq!(store.add_contact("alice", "bob"), Ok(()));
    assert_eq!(store.list_contacts("alice"), Ok(vec![contact(2, "bob")]));
    assert_eq!(store.list_contacts("bob"), Ok(vec![contact(1, "alice")]));
    assert_eq!(store.list_contacts("carol"), Ok(vec![]));
}

#[test]
fn adding_a_contact_twice_changes_nothing_more() {
    let mut store = store_of(&[(1, "alice"), (2, "bob")]);
    store.add_contact("alice", "bob").unwrap();
    store.add_contact("bob", "alice").unwrap();
    store.add_contact("alice", "bob").unwrap();
    assert_eq!(store.list_contacts("alice"), Ok(vec![contact(2, "bob")]));
    assert_eq!(store.list_contacts("bob"), Ok(vec![contact(1, "alice")]));
}

#[test]
fn earlier_contacts_survive_later_additions() {
    let mut store = store_of(&[(1, "alice"), (2, "bob"), (3, "carol")]);
    store.add_contact("alice", "bob").unwrap();
    store.add_contact("carol", "alice").unwrap();
    store.add_contact("bob", "carol").unwrap();
    assert_eq!(
        store.list_contacts("alice").map(by_id),
        Ok(vec![contact(2, "bob"), contact(3, "carol")])
    );
    assert_eq!(
        store.list_contacts("bob").map(by_id),
        Ok(vec![contact(1, "alice"), contact(3, "carol")])
    );
    assert_eq!(
        store.list_contacts("carol").map(by_id),
        Ok(vec![contact(1, "alice"), contact(2, "bob")])
    );
}

#[test]
fn many_contacts_are_each_listed_once() {
    let mut user = User::new(UserId(0), "hub".to_string(), "hash".to_string());
    for id in 1..=40u128 {
        user.add_contact(contact(id, &format!("user{}", id)));
    }
    for id in 1..=40u128 {
        user.add_contact(contact(id, &format!("user{}", id)));
    }
    let listed = by_id(user.contacts());
    assert_eq!(listed.len(), 40);
    for (at, entry) in listed.iter().enumerate() {
        assert_eq!(entry.id, UserId(at as u128 + 1));
        assert_eq!(entry.username, format!("user{}", at + 1));
    }
}

#[test]
fn contact_errors_come_in_order() {
    let mut store = store_of(&[(1, "alice"), (2, "bob")]);
    assert_eq!(store.add_contact("alice", ""), Err(ChatError::EmptyContact));
    assert_eq!(store.add_contact("", ""), Err(ChatError::EmptyContact));
    assert_eq!(store.add_contact("alice", "alice"), Err(ChatError::SelfContact));
    assert_eq!(store.add_contact("ghost", "ghost"), Err(ChatError::SelfContact));
    assert_eq!(store.add_contact("ghost", "bob"), Err(ChatError::SessionUserMissing));
    assert_eq!(store.add_contact("ghost", "nobody"), Err(ChatError::SessionUserMissing));
    assert_eq!(store.add_contact("alice", "nobody"), Err(ChatError::ContactUnknown));
    assert_eq!(store.list_contacts("alice"), Ok(vec![]));
    assert_eq!(store.list_contacts("bob"), Ok(vec![]));
}

#[test]
fn contacts_of_an_unknown_user_are_not_found() {
    let store = store_of(&[(1, "alice")]);
    assert_eq!(store.list_contacts("ghost"), Err(ChatError::SessionUserMissing));
}

#[test]
fn no_update_is_lost_in_any_order_of_calls() {
    let calls = [("alice", "bob"), ("carol", "alice"), ("bob", "carol")];
    let orders = [[0, 1, 2], [0, 2, 1], [1, 0, 2], [1, 2, 0], [2, 0, 1], [2, 1, 0]];
    for order in orders {
        let mut store = store_of(&[(1, "alice"), (2, "bob"), (3, "carol")]);
        for i in order {
            let (user, other) = calls[i];
            assert_eq!(store.add_contact(user, other), Ok(()));
        }
        for (name, id) in [("alice", 1u128), ("bob", 2), ("carol", 3)] {
            let ids: Vec<u128> =
                store.list_contacts(name).unwrap().iter().map(|c| c.id.0).collect();
            assert_eq!(ids.len(), 2);
            for other in [1u128, 2, 3] {
                assert_eq!(ids.contains(&other), other != id);
            }
        }
    }
}

#[test]
fn failed_call_between_others_changes_nothing() {
    let mut store = store_of(&[(1, "alice"), (2, "bob")]);
    store.add_contact("alice", "bob").unwrap();
    assert_eq!(store.add_contact("alice", "nobody"), Err(ChatError::ContactUnknown));
    assert_eq!(store.add_contact("bob", "bob"), Err(ChatError::SelfContact));
    assert_eq!(store.list_contacts("alice"), Ok(vec![contact(2, "bob")]));
    assert_eq!(store.list_contacts("bob"), Ok(vec![contact(1, "alice")]));
}
