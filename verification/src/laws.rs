//! What holds of the relay as a whole, stated over the same spec functions
//! as the contracts of its operations.

use vstd::prelude::*;
use crate::connections::{
    distinct_credentials, held_by, held_by_either, is_connected, lemma_filter_distinct, other_than,
    registered, ConnectionView,
};
use crate::errors::ChatError;
use crate::handlers::{enrolled, login_check, registration_check};
use crate::passwords::bcrypt_verdict;
use crate::identity::{
    after_call, after_calls, befriended, contact_check, contact_of, distinct_usernames,
    has_contact, has_user, holds_contact, lemma_user_named, user_index, user_named, UserView,
};
use crate::messages::ClientMessageView;
use crate::records::SessionView;
use crate::router::{audience, recipients_of};
use crate::seqs::{lemma_filter_membership, lemma_filter_positions};
use crate::sessions::{
    distinct_keys, distinct_users, has_session_of, not_keyed, not_of_user, session_of, session_user,
};
use crate::stamps::UserId;
use crate::state::{session_created, StateView};

verus! {

/// Holds of the session records of `user`.
pub open spec fn of_user(user: UserId) -> spec_fn(SessionView) -> bool {
    |record: SessionView| record.user_id == user
}

/// Holds of the users called `name`.
pub open spec fn named(name: Seq<char>) -> spec_fn(UserView) -> bool {
    |user: UserView| user.username == name
}

/// Creating a session leaves its user with exactly that one session, keeps
/// the directory free of double credentials and double users, and closes
/// the connection that was open under the credential the user had before.
pub proof fn law_single_session<C>(state: StateView<C>, session: SessionView)
    requires
        distinct_keys(state.sessions),
        distinct_users(state.sessions),
    ensures
        ({
            let next = session_created(state, session);
            &&& distinct_keys(next.sessions)
            &&& distinct_users(next.sessions)
            &&& next.sessions.filter(of_user(session.user_id)) == seq![session]
            &&& has_session_of(state.sessions, session.user_id) ==> !is_connected(
                next.connections,
                session_of(state.sessions, session.user_id).session_key,
            )
        }),
{
    let next = session_created(state, session);
    let first = state.sessions.filter(not_of_user(session.user_id));
    let kept = first.filter(not_keyed(session.session_key));
    let at_first = lemma_filter_positions(state.sessions, not_of_user(session.user_id));
    let at_kept = lemma_filter_positions(first, not_keyed(session.session_key));
    assert forall|j: int| 0 <= j < kept.len() implies (#[trigger] kept[j]).user_id
        != session.user_id && kept[j].session_key != session.session_key by {
        lemma_filter_membership(first, not_keyed(session.session_key), kept[j]);
        lemma_filter_membership(state.sessions, not_of_user(session.user_id), kept[j]);
        assert(kept.contains(kept[j]));
    }
    assert forall|i: int, j: int| 0 <= i < j < kept.len() implies (#[trigger] kept[i]).session_key
        != (#[trigger] kept[j]).session_key && kept[i].user_id != kept[j].user_id by {
        assert(kept[i] == first[at_kept[i]]);
        assert(kept[j] == first[at_kept[j]]);
        assert(first[at_kept[i]] == state.sessions[at_first[at_kept[i]]]);
        assert(first[at_kept[j]] == state.sessions[at_first[at_kept[j]]]);
    }
    assert(next.sessions == kept.push(session));
    assert(kept.filter(of_user(session.user_id)) =~= Seq::<SessionView>::empty()) by {
        kept.lemma_all_neg_filter_empty(of_user(session.user_id));
    }
    kept.lemma_filter_push(session, of_user(session.user_id));
    assert(next.sessions.filter(of_user(session.user_id)) =~= seq![session]);
    if has_session_of(state.sessions, session.user_id) {
        let gone = session_of(state.sessions, session.user_id).session_key;
        if is_connected(next.connections, gone) {
            let i = choose|i: int|
                0 <= i < next.connections.len() && (#[trigger] next.connections[i]).credential
                    == gone;
            lemma_filter_membership(state.connections, other_than(gone), next.connections[i]);
            assert(next.connections.contains(next.connections[i]));
        }
    }
}

/// Once a user is registered, registering their name again fails as taken,
/// whatever the password, and the store holds exactly one user of that
/// name.
pub proof fn law_username_registers_once<C>(
    state: StateView<C>,
    user: UserView,
    key: Seq<char>,
    password: Seq<char>,
    again: Seq<char>,
)
    requires
        distinct_usernames(state.users),
        registration_check(state.users, user.username, password) is Ok,
        again.len() > 0,
    ensures
        ({
            let next = enrolled(state, user, key);
            &&& distinct_usernames(next.users)
            &&& registration_check(next.users, user.username, again) == Err::<(), ChatError>(
                ChatError::UsernameTaken,
            )
            &&& next.users.filter(named(user.username)) == seq![user]
        }),
{
    let next = enrolled(state, user, key);
    assert(next.users == state.users.push(user));
    assert(next.users[state.users.len() as int] == user);
    assert(state.users.filter(named(user.username)) =~= Seq::<UserView>::empty()) by {
        state.users.lemma_all_neg_filter_empty(named(user.username));
    }
    state.users.lemma_filter_push(user, named(user.username));
    assert(next.users.filter(named(user.username)) =~= seq![user]);
}

/// A user who registered with a password that their stored hash verifies
/// against is let in by a login with that name and password.
pub proof fn law_registered_password_opens_login<C>(
    state: StateView<C>,
    user: UserView,
    key: Seq<char>,
    password: Seq<char>,
)
    requires
        distinct_usernames(state.users),
        registration_check(state.users, user.username, password) is Ok,
        bcrypt_verdict(password, user.password_hash) == Some(true),
    ensures
        login_check(enrolled(state, user, key).users, user.username, password) == Ok::<
            UserView,
            ChatError,
        >(user),
{
    let next = enrolled(state, user, key).users;
    assert(next == state.users.push(user));
    assert(next[state.users.len() as int] == user);
    assert(distinct_usernames(next));
    lemma_user_named(next, user.username, state.users.len() as int);
}

/// After two users became contacts, each is in the contact set of the
/// other, under their identifier and with their name.
pub proof fn law_contacts_are_mutual(users: Seq<UserView>, a: Seq<char>, b: Seq<char>)
    requires
        distinct_usernames(users),
        contact_check(users, a, b) is Ok,
    ensures
        ({
            let next = befriended(users, a, b);
            &&& distinct_usernames(next)
            &&& has_user(next, a)
            &&& has_user(next, b)
            &&& holds_contact(user_named(next, a).contacts, contact_of(user_named(users, b)))
            &&& holds_contact(user_named(next, b).contacts, contact_of(user_named(users, a)))
        }),
{
    let next = befriended(users, a, b);
    let ia = user_index(users, a);
    let ib = user_index(users, b);
    assert(next[ia].username == a);
    assert(next[ib].username == b);
    lemma_user_named(next, a, ia);
    lemma_user_named(next, b, ib);
}

/// A contact, once in a contact set, stays in it when any two users become
/// contacts later: additions to a contact set are never lost.
pub proof fn law_contacts_persist(
    users: Seq<UserView>,
    a: Seq<char>,
    b: Seq<char>,
    owner: Seq<char>,
    contact: UserId,
)
    requires
        distinct_usernames(users),
        contact_check(users, a, b) is Ok,
        has_user(users, owner),
        has_contact(user_named(users, owner).contacts, contact),
    ensures
        has_user(befriended(users, a, b), owner),
        has_contact(user_named(befriended(users, a, b), owner).contacts, contact),
{
    let next = befriended(users, a, b);
    let io = user_index(users, owner);
    assert(next[io].username == owner);
    lemma_user_named(next, owner, io);
}

/// An add-contact call changes no name and no identifier, and moves no
/// user.
proof fn lemma_call_keeps_identities(users: Seq<UserView>, a: Seq<char>, b: Seq<char>)
    requires
        distinct_usernames(users),
    ensures
        ({
            let next = after_call(users, a, b);
            &&& next.len() == users.len()
            &&& distinct_usernames(next)
            &&& forall|i: int|
                0 <= i < users.len() ==> (#[trigger] next[i]).username == users[i].username
                    && next[i].id == users[i].id
        }),
{
    if contact_check(users, a, b) is Ok {
        let ia = user_index(users, a);
        let ib = user_index(users, b);
        assert(0 <= ia < users.len() && 0 <= ib < users.len());
    }
}

/// A series of add-contact calls changes no name and no identifier, and
/// moves no user.
proof fn lemma_calls_keep_identities(users: Seq<UserView>, calls: Seq<(Seq<char>, Seq<char>)>)
    requires
        distinct_usernames(users),
    ensures
        ({
            let end = after_calls(users, calls);
            &&& end.len() == users.len()
            &&& distinct_usernames(end)
            &&& forall|i: int|
                0 <= i < users.len() ==> (#[trigger] end[i]).username == users[i].username
                    && end[i].id == users[i].id
        }),
    decreases calls.len(),
{
    if calls.len() > 0 {
        lemma_calls_keep_identities(users, calls.drop_last());
        lemma_call_keeps_identities(
            after_calls(users, calls.drop_last()),
            calls.last().0,
            calls.last().1,
        );
    }
}

/// Calls that take effect one after the other can be taken in two parts.
proof fn lemma_calls_in_parts(
    users: Seq<UserView>,
    first: Seq<(Seq<char>, Seq<char>)>,
    second: Seq<(Seq<char>, Seq<char>)>,
)
    ensures
        after_calls(users, first + second) == after_calls(after_calls(users, first), second),
    decreases second.len(),
{
    if second.len() == 0 {
        assert(first + second =~= first);
    } else {
        lemma_calls_in_parts(users, first, second.drop_last());
        assert((first + second).drop_last() =~= first + second.drop_last());
        assert((first + second).last() == second.last());
    }
}

/// Whatever add-contact calls take effect, in whatever order, no contact
/// set loses a contact: the user at each place keeps every identifier that
/// was in their set.
pub proof fn law_contacts_grow(
    users: Seq<UserView>,
    calls: Seq<(Seq<char>, Seq<char>)>,
    owner: int,
    contact: UserId,
)
    requires
        distinct_usernames(users),
        0 <= owner < users.len(),
        has_contact(users[owner].contacts, contact),
    ensures
        after_calls(users, calls).len() == users.len(),
        after_calls(users, calls)[owner].username == users[owner].username,
        has_contact(after_calls(users, calls)[owner].contacts, contact),
    decreases calls.len(),
{
    lemma_calls_keep_identities(users, calls);
    if calls.len() > 0 {
        let before = after_calls(users, calls.drop_last());
        let (a, b) = calls.last();
        law_contacts_grow(users, calls.drop_last(), owner, contact);
        lemma_calls_keep_identities(users, calls.drop_last());
        if contact_check(before, a, b) is Ok {
            let name = before[owner].username;
            lemma_user_named(before, name, owner);
            law_contacts_persist(before, a, b, name, contact);
            lemma_user_named(after_calls(users, calls), name, owner);
        }
    }
}

/// No update is lost: whatever add-contact calls take effect, in whatever
/// order, once all of them have, the two users of every call that
/// succeeded are in the contact set of each other.
pub proof fn law_no_lost_update(
    users: Seq<UserView>,
    calls: Seq<(Seq<char>, Seq<char>)>,
    k: int,
)
    requires
        distinct_usernames(users),
        0 <= k < calls.len(),
        contact_check(after_calls(users, calls.take(k)), calls[k].0, calls[k].1) is Ok,
    ensures
        ({
            let end = after_calls(users, calls);
            let (a, b) = calls[k];
            &&& has_user(end, a)
            &&& has_user(end, b)
            &&& has_contact(user_named(end, a).contacts, user_named(end, b).id)
            &&& has_contact(user_named(end, b).contacts, user_named(end, a).id)
        }),
{
    let (a, b) = calls[k];
    let before = after_calls(users, calls.take(k));
    let done = befriended(before, a, b);
    let rest = calls.skip(k + 1);
    let end = after_calls(users, calls);
    lemma_calls_keep_identities(users, calls.take(k));
    assert(calls.take(k + 1).drop_last() =~= calls.take(k));
    assert(after_calls(users, calls.take(k + 1)) == done);
    assert(calls.take(k + 1) + rest =~= calls);
    lemma_calls_in_parts(users, calls.take(k + 1), rest);
    assert(end == after_calls(done, rest));

    let ia = user_index(before, a);
    let ib = user_index(before, b);
    assert(0 <= ia < before.len() && 0 <= ib < before.len());
    law_contacts_are_mutual(before, a, b);
    lemma_call_keeps_identities(before, a, b);
    lemma_user_named(done, a, ia);
    lemma_user_named(done, b, ib);

    lemma_calls_keep_identities(done, rest);
    law_contacts_grow(done, rest, ia, before[ib].id);
    law_contacts_grow(done, rest, ib, before[ia].id);
    lemma_user_named(end, a, ia);
    lemma_user_named(end, b, ib);
}

/// A contact, once in a contact set, stays in it when another user
/// registers.
pub proof fn law_contacts_survive_registration<C>(
    state: StateView<C>,
    user: UserView,
    key: Seq<char>,
    password: Seq<char>,
    owner: Seq<char>,
    contact: UserId,
)
    requires
        distinct_usernames(state.users),
        registration_check(state.users, user.username, password) is Ok,
        has_user(state.users, owner),
        has_contact(user_named(state.users, owner).contacts, contact),
    ensures
        has_user(enrolled(state, user, key).users, owner),
        has_contact(user_named(enrolled(state, user, key).users, owner).contacts, contact),
{
    let next = enrolled(state, user, key).users;
    let io = user_index(state.users, owner);
    assert(next == state.users.push(user));
    assert(next[io] == state.users[io]);
    assert(next[state.users.len() as int] == user);
    assert(distinct_usernames(next));
    lemma_user_named(next, owner, io);
}

/// A chat message reaches a connection exactly if the session behind it
/// belongs to the addressed user or to the sender, and it reaches each such
/// connection once. So it reaches the sender's own connection, as long as
/// the sender's session stands, and a user who writes to themselves gets
/// one copy.
pub proof fn law_chat_delivery<C>(
    state: StateView<C>,
    to_user_id: UserId,
    text: Seq<char>,
    sender: SessionView,
    connection: ConnectionView<C>,
)
    ensures
        ({
            let message = ClientMessageView::ChatMessage { to_user_id, message: text };
            let reached = recipients_of(state, message, sender.user_id);
            let owner = session_user(state.sessions, connection.credential);
            &&& reached.contains(connection) <==> state.connections.contains(connection) && (owner
                == Some(to_user_id) || owner == Some(sender.user_id))
            &&& state.connections.contains(connection) && connection.credential
                == sender.session_key && session_user(state.sessions, sender.session_key) == Some(
                sender.user_id,
            ) ==> reached.contains(connection)
            &&& distinct_credentials(state.connections) ==> distinct_credentials(reached)
        }),
{
    let selected = held_by_either::<C>(state.sessions, to_user_id, sender.user_id);
    lemma_filter_membership(state.connections, selected, connection);
    if distinct_credentials(state.connections) {
        lemma_filter_distinct(state.connections, selected);
    }
}

/// A typing indicator and a read receipt reach a connection exactly if
/// the session behind it belongs to the addressed user, and they reach
/// each such connection once. Addressed to another user than the sender,
/// they reach no connection of the sender, the sender's own included.
pub proof fn law_no_echo<C>(
    state: StateView<C>,
    message: ClientMessageView,
    sender: SessionView,
    connection: ConnectionView<C>,
)
    requires
        !(message is ChatMessage),
    ensures
        ({
            let reached = recipients_of(state, message, sender.user_id);
            let owner = session_user(state.sessions, connection.credential);
            &&& reached.contains(connection) <==> state.connections.contains(connection) && owner
                == Some(message.target())
            &&& message.target() != sender.user_id && owner == Some(sender.user_id)
                ==> !reached.contains(connection)
            &&& message.target() != sender.user_id && connection.credential == sender.session_key
                && session_user(state.sessions, sender.session_key) == Some(sender.user_id)
                ==> !reached.contains(connection)
            &&& distinct_credentials(state.connections) ==> distinct_credentials(reached)
        }),
{
    let selected = held_by::<C>(state.sessions, message.target());
    lemma_filter_membership(state.connections, selected, connection);
    if distinct_credentials(state.connections) {
        lemma_filter_distinct(state.connections, selected);
    }
}

/// A change of presence is announced to a connection exactly if it was
/// opened under another credential than that of the session that changed:
/// every other connection hears of it once, the session's own never does.
pub proof fn law_presence_audience<C>(
    state: StateView<C>,
    key: Seq<char>,
    connection: ConnectionView<C>,
)
    ensures
        audience(state, key).contains(connection) <==> state.connections.contains(connection)
            && connection.credential != key,
        distinct_credentials(state.connections) ==> distinct_credentials(audience(state, key)),
{
    lemma_filter_membership(state.connections, other_than(key), connection);
    if distinct_credentials(state.connections) {
        lemma_filter_distinct(state.connections, other_than(key));
    }
}

/// Opening a connection makes it live under its credential, keeps
/// credentials distinct, and leaves every connection under another
/// credential as it was.
pub proof fn law_registration<C>(
    connections: Seq<ConnectionView<C>>,
    key: Seq<char>,
    channel: C,
    other: ConnectionView<C>,
)
    requires
        distinct_credentials(connections),
        other.credential != key,
    ensures
        ({
            let next = registered(connections, key, channel);
            &&& distinct_credentials(next)
            &&& next.contains(ConnectionView { credential: key, channel })
            &&& next.contains(other) <==> connections.contains(other)
        }),
{
    let kept = connections.filter(other_than::<C>(key));
    let next = registered(connections, key, channel);
    let at = lemma_filter_positions(connections, other_than(key));
    assert forall|j: int| 0 <= j < kept.len() implies (#[trigger] kept[j]).credential != key by {
        lemma_filter_membership(connections, other_than(key), kept[j]);
        assert(kept.contains(kept[j]));
    }
    assert forall|i: int, j: int| 0 <= i < j < next.len() implies (#[trigger] next[i]).credential
        != (#[trigger] next[j]).credential by {
        if j < kept.len() {
            assert(kept[i] == connections[at[i]]);
            assert(kept[j] == connections[at[j]]);
        }
    }
    assert(next[kept.len() as int] == ConnectionView { credential: key, channel });
    lemma_filter_membership(connections, other_than(key), other);
    if kept.contains(other) {
        let i = choose|i: int| 0 <= i < kept.len() && kept[i] == other;
        assert(next[i] == other);
    }
    if next.contains(other) {
        let i = choose|i: int| 0 <= i < next.len() && next[i] == other;
        assert(kept[i] == other);
    }
}

/// Closing a connection leaves nothing live under its credential, keeps
/// credentials distinct, and leaves every connection under another
/// credential as it was. Sessions are not touched by it.
pub proof fn law_unregistration<C>(
    connections: Seq<ConnectionView<C>>,
    key: Seq<char>,
    other: ConnectionView<C>,
)
    requires
        distinct_credentials(connections),
        other.credential != key,
    ensures
        ({
            let next = connections.filter(other_than(key));
            &&& distinct_credentials(next)
            &&& !is_connected(next, key)
            &&& next.contains(other) <==> connections.contains(other)
        }),
{
    let next = connections.filter(other_than::<C>(key));
    let at = lemma_filter_positions(connections, other_than(key));
    assert forall|j: int| 0 <= j < next.len() implies (#[trigger] next[j]).credential != key by {
        lemma_filter_membership(connections, other_than(key), next[j]);
        assert(next.contains(next[j]));
    }
    assert forall|i: int, j: int| 0 <= i < j < next.len() implies (#[trigger] next[i]).credential
        != (#[trigger] next[j]).credential by {
        assert(next[i] == connections[at[i]]);
        assert(next[j] == connections[at[j]]);
    }
    lemma_filter_membership(connections, other_than(key), other);
}

} // verus!
