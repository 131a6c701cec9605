//! Identity store: the registered users, found by username, each with the
//! set of contacts they share with other users.

use std::collections::HashMap;
use vstd::prelude::*;
use crate::errors::ChatError;
use crate::records::{ContactView, UserDTO};
use crate::stamps::UserId;

verus! {

/// A registered user.
pub struct User {
    id: UserId,
    username: String,
    password_hash: String,
    // Name of each contact, under the bits of the contact's identifier.
    contacts: HashMap<u128, String>,
}

/// What a [`User`] is in contracts.
pub ghost struct UserView {
    pub id: UserId,
    pub username: Seq<char>,
    pub password_hash: Seq<char>,
    /// Name of each contact, under the contact's identifier.
    pub contacts: Map<UserId, Seq<char>>,
}

/// What a list of contact records is in contracts.
pub open spec fn contact_views(list: Seq<UserDTO>) -> Seq<ContactView> {
    list.map_values(|contact: UserDTO| contact@)
}

/// A user as a contact of others.
pub open spec fn contact_of(user: UserView) -> ContactView {
    ContactView { id: user.id, username: user.username }
}

/// A user as they are right after registration, without contacts.
pub open spec fn newcomer(id: UserId, username: Seq<char>, password_hash: Seq<char>) -> UserView {
    UserView { id, username, password_hash, contacts: Map::empty() }
}

/// What a stored contact set is in contracts.
pub open spec fn contact_map(contacts: Map<u128, String>) -> Map<UserId, Seq<char>> {
    Map::new(|id: UserId| contacts.contains_key(id.0), |id: UserId| contacts[id.0]@)
}

/// The contact set holds a contact with the identifier `id`.
pub open spec fn has_contact(contacts: Map<UserId, Seq<char>>, id: UserId) -> bool {
    contacts.contains_key(id)
}

/// The contact set holds `contact`: its identifier, and its name under it.
pub open spec fn holds_contact(contacts: Map<UserId, Seq<char>>, contact: ContactView) -> bool {
    contacts.contains_key(contact.id) && contacts[contact.id] == contact.username
}

/// The contact set after `contact` was put in: a name under the same
/// identifier is overwritten, and every other contact stays.
pub open spec fn put_contact(contacts: Map<UserId, Seq<char>>, contact: ContactView) -> Map<
    UserId,
    Seq<char>,
> {
    contacts.insert(contact.id, contact.username)
}

/// `list` lists the contact set `contacts`: every contact of the set
/// once, with its name, and nothing else. The order is left open.
pub open spec fn lists(list: Seq<ContactView>, contacts: Map<UserId, Seq<char>>) -> bool {
    &&& forall|i: int|
        0 <= i < list.len() ==> contacts.contains_key((#[trigger] list[i]).id)
            && contacts[list[i].id] == list[i].username
    &&& forall|i: int, j: int|
        0 <= i < j < list.len() ==> (#[trigger] list[i]).id != (#[trigger] list[j]).id
    &&& forall|id: UserId| #[trigger]
        contacts.contains_key(id) ==> exists|i: int|
            0 <= i < list.len() && (#[trigger] list[i]).id == id
}

/// The user with `contact` put into their contact set.
pub open spec fn with_contact(user: UserView, contact: ContactView) -> UserView {
    UserView { contacts: put_contact(user.contacts, contact), ..user }
}

/// Some user of `users` is called `name`.
pub open spec fn has_user(users: Seq<UserView>, name: Seq<char>) -> bool {
    exists|i: int| 0 <= i < users.len() && (#[trigger] users[i]).username == name
}

/// Where in `users` the user called `name` stands, where there is one.
pub open spec fn user_index(users: Seq<UserView>, name: Seq<char>) -> int {
    choose|i: int| 0 <= i < users.len() && (#[trigger] users[i]).username == name
}

/// The user of `users` called `name`, where there is one.
pub open spec fn user_named(users: Seq<UserView>, name: Seq<char>) -> UserView {
    users[user_index(users, name)]
}

/// No two users share a name.
pub open spec fn distinct_usernames(users: Seq<UserView>) -> bool {
    forall|i: int, j: int|
        0 <= i < j < users.len() ==> (#[trigger] users[i]).username != (
        #[trigger] users[j]).username
}

/// The users after the ones called `a` and `b` became contacts of each
/// other.
pub open spec fn befriended(users: Seq<UserView>, a: Seq<char>, b: Seq<char>) -> Seq<UserView> {
    let ia = user_index(users, a);
    let ib = user_index(users, b);
    users.update(ia, with_contact(users[ia], contact_of(users[ib]))).update(
        ib,
        with_contact(users[ib], contact_of(users[ia])),
    )
}

/// The users after an add-contact call of the user `a` that names `b`: the
/// two became contacts where the call succeeds, and nothing changed where
/// it fails.
pub open spec fn after_call(users: Seq<UserView>, a: Seq<char>, b: Seq<char>) -> Seq<UserView> {
    if contact_check(users, a, b) is Ok {
        befriended(users, a, b)
    } else {
        users
    }
}

/// The users after a series of add-contact calls, each given as the name
/// of the caller and the name of the contact, in the order in which they
/// took effect.
pub open spec fn after_calls(users: Seq<UserView>, calls: Seq<(Seq<char>, Seq<char>)>) -> Seq<
    UserView,
>
    decreases calls.len(),
{
    if calls.len() == 0 {
        users
    } else {
        after_call(after_calls(users, calls.drop_last()), calls.last().0, calls.last().1)
    }
}

/// With distinct names, a user called `name` is the user called `name`.
pub proof fn lemma_user_named(users: Seq<UserView>, name: Seq<char>, i: int)
    requires
        distinct_usernames(users),
        0 <= i < users.len(),
        users[i].username == name,
    ensures
        has_user(users, name),
        user_index(users, name) == i,
        user_named(users, name) == users[i],
{
    let j = choose|j: int| 0 <= j < users.len() && (#[trigger] users[j]).username == name;
    assert(j == i);
}

impl View for User {
    type V = UserView;

    closed spec fn view(&self) -> UserView {
        UserView {
            id: self.id,
            username: self.username@,
            password_hash: self.password_hash@,
            contacts: contact_map(self.contacts@),
        }
    }
}

impl User {
    /// A user without contacts.
    pub fn new(id: UserId, username: String, password_hash: String) -> (user: User)
        ensures
            user@ == newcomer(id, username@, password_hash@),
    {
        let contacts: HashMap<u128, String> = HashMap::new();
        assert(contact_map(contacts@) =~= Map::<UserId, Seq<char>>::empty());
        User { id, username, password_hash, contacts }
    }

    /// The identifier of the user.
    pub fn id(&self) -> (id: UserId)
        ensures
            id == self@.id,
    {
        self.id
    }

    /// The name of the user, which never changes.
    pub fn username(&self) -> (name: &String)
        ensures
            name@ == self@.username,
    {
        &self.username
    }

    /// The stored hash of the user's password.
    pub fn password_hash(&self) -> (hash: &String)
        ensures
            hash@ == self@.password_hash,
    {
        &self.password_hash
    }

    /// The user as a contact of others.
    pub fn summary(&self) -> (contact: UserDTO)
        ensures
            contact@ == contact_of(self@),
    {
        UserDTO { id: self.id, username: self.username.clone() }
    }

    /// The contacts of the user, each of them once, in no particular
    /// order.
    pub fn contacts(&self) -> (list: Vec<UserDTO>)
        ensures
            lists(contact_views(list@), self@.contacts),
    {
        broadcast use vstd::std_specs::hash::group_hash_axioms;

        let stored = &self.contacts;
        let mut list: Vec<UserDTO> = Vec::new();
        for pair in it: stored.iter()
            invariant
                list@.len() == it.index(),
                it.seq().no_duplicates(),
                forall|i: int|
                    0 <= i < it.seq().len() ==> stored@.contains_key(*(#[trigger] it.seq()[i]).0)
                        && stored@[*it.seq()[i].0] == *it.seq()[i].1,
                forall|k: u128| #[trigger]
                    stored@.contains_key(k) ==> exists|i: int|
                        0 <= i < it.seq().len() && *(#[trigger] it.seq()[i]).0 == k,
                forall|i: int|
                    #![trigger list@[i]]
                    #![trigger it.seq()[i]]
                    0 <= i < list@.len() ==> list@[i].id.0 == *it.seq()[i].0
                        && list@[i].username@ == it.seq()[i].1@,
                forall|i: int, j: int|
                    0 <= i < j < list@.len() ==> (#[trigger] list@[i]).id != (
                    #[trigger] list@[j]).id,
        {
            let (id, name) = pair;
            assert forall|i: int| 0 <= i < list@.len() implies (#[trigger] list@[i]).id != UserId(
                *id,
            ) by {
                if list@[i].id == UserId(*id) {
                    assert(it.seq()[i] == it.seq()[it.index() as int]);
                }
            }
            list.push(UserDTO { id: UserId(*id), username: name.clone() });
        }
        let ghost views = contact_views(list@);
        let ghost contacts = contact_map(stored@);
        assert forall|id: UserId| #[trigger] contacts.contains_key(id) implies exists|i: int|
            0 <= i < views.len() && (#[trigger] views[i]).id == id by {
            assert(stored@.contains_key(id.0));
            let i = choose|i: int| 0 <= i < list@.len() && (#[trigger] list@[i]).id.0 == id.0;
            assert(views[i].id == id);
        }
        list
    }

    /// Puts `contact` into the contact set, over the name that stood under
    /// the same identifier if there was one.
    pub fn add_contact(&mut self, contact: UserDTO)
        ensures
            final(self)@ == with_contact(old(self)@, contact@),
    {
        broadcast use vstd::std_specs::hash::group_hash_axioms;

        let ghost added = contact@;
        let _ = self.contacts.insert(contact.id.0, contact.username);
        assert(contact_map(self.contacts@) =~= put_contact(contact_map(old(self).contacts@), added));
    }
}

/// The registered users, in the order in which they registered.
pub struct IdentityStore {
    users: Vec<User>,
}

impl View for IdentityStore {
    type V = Seq<UserView>;

    closed spec fn view(&self) -> Seq<UserView> {
        self.users@.map_values(|user: User| user@)
    }
}

impl IdentityStore {
    /// Usernames are distinct.
    #[verifier::type_invariant]
    pub open spec fn wf(&self) -> bool {
        distinct_usernames(self@)
    }

    /// A store without users.
    pub fn new() -> (store: IdentityStore)
        ensures
            store@ == Seq::<UserView>::empty(),
    {
        let users: Vec<User> = Vec::new();
        assert(users@.map_values(|user: User| user@) =~= Seq::<UserView>::empty());
        IdentityStore { users }
    }

    /// Number of registered users.
    pub fn len(&self) -> (n: usize)
        ensures
            n == self@.len(),
    {
        self.users.len()
    }

    fn position_of(&self, name: &String) -> (at: Option<usize>)
        ensures
            match at {
                Some(i) => i < self@.len() && self@[i as int].username == name@,
                None => !has_user(self@, name@),
            },
    {
        let mut i: usize = 0;
        while i < self.users.len()
            invariant
                i <= self.users.len(),
                forall|j: int| 0 <= j < i ==> (#[trigger] self@[j]).username != name@,
            decreases self.users.len() - i,
        {
            if self.users[i].username == *name {
                return Some(i);
            }
            i += 1;
        }
        None
    }

    /// Whether a user of that name is registered.
    pub fn contains(&self, username: &str) -> (known: bool)
        ensures
            known == has_user(self@, username@),
    {
        let name = username.to_owned();
        self.position_of(&name).is_some()
    }

    /// The user of that name, if one is registered.
    pub fn get(&self, username: &str) -> (found: Option<&User>)
        ensures
            match found {
                Some(user) => has_user(self@, username@) && user@ == user_named(self@, username@),
                None => !has_user(self@, username@),
            },
    {
        let name = username.to_owned();
        match self.position_of(&name) {
            Some(i) => {
                proof {
                    use_type_invariant(self);
                    lemma_user_named(self@, username@, i as int);
                }
                Some(&self.users[i])
            },
            None => None,
        }
    }

    /// Stores a new user without contacts, unless the name is taken.
    pub fn add(&mut self, id: UserId, username: String, password_hash: String) -> (added: Result<
        (),
        ChatError,
    >)
        ensures
            match added {
                Ok(_) => !has_user(old(self)@, username@) && final(self)@ == old(self)@.push(
                    newcomer(id, username@, password_hash@),
                ),
                Err(e) => e == ChatError::UsernameTaken && has_user(old(self)@, username@)
                    && final(self)@ == old(self)@,
            },
    {
        match self.position_of(&username) {
            Some(_) => Err(ChatError::UsernameTaken),
            None => {
                proof {
                    use_type_invariant(&*self);
                }
                let ghost before = self@;
                let user = User::new(id, username, password_hash);
                let ghost added = user@;
                let mut users: Vec<User> = Vec::new();
                std::mem::swap(&mut users, &mut self.users);
                users.push(user);
                assert(users@.map_values(|user: User| user@) =~= before.push(added));
                self.users = users;
                Ok(())
            },
        }
    }

    /// Makes the users `username` and `contact_username` contacts of each
    /// other.
    pub fn add_contact(&mut self, username: &str, contact_username: &str) -> (linked: Result<
        (),
        ChatError,
    >)
        ensures
            linked == contact_check(old(self)@, username@, contact_username@),
            final(self)@ == after_call(old(self)@, username@, contact_username@),
    {
        if contact_username.is_empty() {
            return Err(ChatError::EmptyContact);
        }
        let name = username.to_owned();
        let contact_name = contact_username.to_owned();
        if contact_name == name {
            return Err(ChatError::SelfContact);
        }
        let ia = match self.position_of(&name) {
            Some(i) => i,
            None => {
                return Err(ChatError::SessionUserMissing);
            },
        };
        let ib = match self.position_of(&contact_name) {
            Some(i) => i,
            None => {
                return Err(ChatError::ContactUnknown);
            },
        };
        proof {
            use_type_invariant(&*self);
            lemma_user_named(self@, username@, ia as int);
            lemma_user_named(self@, contact_username@, ib as int);
        }
        let contact_a = self.users[ia].summary();
        let contact_b = self.users[ib].summary();
        self.put(ia, contact_b);
        self.put(ib, contact_a);
        assert(self@ =~= befriended(old(self)@, username@, contact_username@));
        Ok(())
    }

    fn put(&mut self, i: usize, contact: UserDTO)
        requires
            i < old(self)@.len(),
        ensures
            final(self)@ == old(self)@.update(i as int, with_contact(old(self)@[i as int], contact@)),
    {
        proof {
            use_type_invariant(&*self);
        }
        let mut users: Vec<User> = Vec::new();
        std::mem::swap(&mut users, &mut self.users);
        let mut user = users.remove(i);
        assert(user@ == old(self)@[i as int]);
        user.add_contact(contact);
        users.insert(i, user);
        assert(users@.map_values(|user: User| user@) =~= old(self)@.update(
            i as int,
            with_contact(old(self)@[i as int], contact@),
        ));
        self.users = users;
    }

    /// The contacts of the user `username`, each of them once, in no
    /// particular order.
    pub fn list_contacts(&self, username: &str) -> (listed: Result<Vec<UserDTO>, ChatError>)
        ensures
            match listed {
                Ok(list) => has_user(self@, username@) && lists(
                    contact_views(list@),
                    user_named(self@, username@).contacts,
                ),
                Err(e) => e == ChatError::SessionUserMissing && !has_user(self@, username@),
            },
    {
        match self.get(username) {
            Some(user) => Ok(user.contacts()),
            None => Err(ChatError::SessionUserMissing),
        }
    }
}

/// Whether the users `a` and `b` of `users` can become contacts, and the
/// error if they cannot.
pub open spec fn contact_check(users: Seq<UserView>, a: Seq<char>, b: Seq<char>) -> Result<
    (),
    ChatError,
> {
    if b.len() == 0 {
        Err(ChatError::EmptyContact)
    } else if b == a {
        Err(ChatError::SelfContact)
    } else if !has_user(users, a) {
        Err(ChatError::SessionUserMissing)
    } else if !has_user(users, b) {
        Err(ChatError::ContactUnknown)
    } else {
        Ok(())
    }
}

} // verus!
