//! Connection registry: which session credentials have a live outbound
//! channel right now.
//!
//! The registry owns the channel handles and nothing else; what a channel
//! is, and who drains it, is up to the caller.

use vstd::prelude::*;
use crate::records::SessionView;
use crate::seqs::{
    lemma_filter_keeps_all, lemma_filter_membership, lemma_filter_positions,
    lemma_filter_removes_one,
};
use crate::sessions::{session_user, SessionDirectory};
use crate::stamps::UserId;

verus! {

/// One live connection: the credential it was opened with and the channel
/// that carries frames to it.
pub struct Connection<C> {
    credential: String,
    channel: C,
}

/// What a [`Connection`] is in contracts.
pub ghost struct ConnectionView<C> {
    pub credential: Seq<char>,
    pub channel: C,
}

impl<C> View for Connection<C> {
    type V = ConnectionView<C>;

    closed spec fn view(&self) -> ConnectionView<C> {
        ConnectionView { credential: self.credential@, channel: self.channel }
    }
}

impl<C> Connection<C> {
    /// The credential that the connection was opened with.
    pub fn credential(&self) -> (key: &String)
        ensures
            key@ == self@.credential,
    {
        &self.credential
    }

    /// The channel that carries frames to the connection.
    pub fn channel(&self) -> (channel: &C)
        ensures
            *channel == self@.channel,
    {
        &self.channel
    }
}

/// What a list of borrowed connections is in contracts.
pub open spec fn connection_views<C>(connections: Seq<&Connection<C>>) -> Seq<ConnectionView<C>> {
    connections.map_values(|connection: &Connection<C>| connection@)
}

/// Some connection of `connections` was opened with `key`.
pub open spec fn is_connected<C>(connections: Seq<ConnectionView<C>>, key: Seq<char>) -> bool {
    exists|i: int| 0 <= i < connections.len() && (#[trigger] connections[i]).credential == key
}

/// The connection of `connections` that was opened with `key`, where there
/// is one.
pub open spec fn connection_keyed<C>(
    connections: Seq<ConnectionView<C>>,
    key: Seq<char>,
) -> ConnectionView<C> {
    connections[choose|i: int|
        0 <= i < connections.len() && (#[trigger] connections[i]).credential == key]
}

/// No two connections share a credential.
pub open spec fn distinct_credentials<C>(connections: Seq<ConnectionView<C>>) -> bool {
    forall|i: int, j: int|
        0 <= i < j < connections.len() ==> (#[trigger] connections[i]).credential != (
        #[trigger] connections[j]).credential
}

/// Holds of the connections that were not opened with `key`.
pub open spec fn other_than<C>(key: Seq<char>) -> spec_fn(ConnectionView<C>) -> bool {
    |connection: ConnectionView<C>| connection.credential != key
}

/// Holds of the connections whose credential names a session of `user` or
/// of `other`.
pub open spec fn held_by_either<C>(
    sessions: Seq<SessionView>,
    user: UserId,
    other: UserId,
) -> spec_fn(ConnectionView<C>) -> bool {
    |connection: ConnectionView<C>|
        {
            let owner = session_user(sessions, connection.credential);
            owner == Some(user) || owner == Some(other)
        }
}

/// Holds of the connections whose credential names a session of `user`.
pub open spec fn held_by<C>(sessions: Seq<SessionView>, user: UserId) -> spec_fn(
    ConnectionView<C>,
) -> bool {
    held_by_either(sessions, user, user)
}

/// The registry after `channel` was registered under `key`: an earlier
/// connection under that credential is gone, the new one stands last.
pub open spec fn registered<C>(
    connections: Seq<ConnectionView<C>>,
    key: Seq<char>,
    channel: C,
) -> Seq<ConnectionView<C>> {
    connections.filter(other_than(key)).push(ConnectionView { credential: key, channel })
}

/// With distinct credentials, a connection opened with `key` is the
/// connection opened with `key`.
pub proof fn lemma_connection_keyed<C>(connections: Seq<ConnectionView<C>>, key: Seq<char>, i: int)
    requires
        distinct_credentials(connections),
        0 <= i < connections.len(),
        connections[i].credential == key,
    ensures
        is_connected(connections, key),
        connection_keyed(connections, key) == connections[i],
{
    let j = choose|j: int|
        0 <= j < connections.len() && (#[trigger] connections[j]).credential == key;
    assert(j == i);
}

/// A selection from connections with distinct credentials has distinct
/// credentials: no connection is selected twice.
pub proof fn lemma_filter_distinct<C>(
    connections: Seq<ConnectionView<C>>,
    pred: spec_fn(ConnectionView<C>) -> bool,
)
    requires
        distinct_credentials(connections),
    ensures
        distinct_credentials(connections.filter(pred)),
{
    let kept = connections.filter(pred);
    let at = lemma_filter_positions(connections, pred);
    assert forall|i: int, j: int| 0 <= i < j < kept.len() implies (#[trigger] kept[i]).credential
        != (#[trigger] kept[j]).credential by {
        assert(kept[i] == connections[at[i]]);
        assert(kept[j] == connections[at[j]]);
    }
}

/// The live connections, in the order in which they were registered.
pub struct ConnectionRegistry<C> {
    entries: Vec<Connection<C>>,
}

impl<C> View for ConnectionRegistry<C> {
    type V = Seq<ConnectionView<C>>;

    closed spec fn view(&self) -> Seq<ConnectionView<C>> {
        self.entries@.map_values(|entry: Connection<C>| entry@)
    }
}

impl<C> ConnectionRegistry<C> {
    /// Credentials are distinct.
    #[verifier::type_invariant]
    pub open spec fn wf(&self) -> bool {
        distinct_credentials(self@)
    }

    /// A registry without connections.
    pub fn new() -> (registry: ConnectionRegistry<C>)
        ensures
            registry@ == Seq::<ConnectionView<C>>::empty(),
    {
        let entries: Vec<Connection<C>> = Vec::new();
        assert(entries@.map_values(|entry: Connection<C>| entry@) =~= Seq::<
            ConnectionView<C>,
        >::empty());
        ConnectionRegistry { entries }
    }

    /// Number of live connections.
    pub fn len(&self) -> (n: usize)
        ensures
            n == self@.len(),
    {
        self.entries.len()
    }

    fn position_of(&self, key: &String) -> (at: Option<usize>)
        ensures
            match at {
                Some(i) => i < self@.len() && self@[i as int].credential == key@,
                None => !is_connected(self@, key@),
            },
    {
        let mut i: usize = 0;
        while i < self.entries.len()
            invariant
                i <= self.entries.len(),
                forall|j: int| 0 <= j < i ==> (#[trigger] self@[j]).credential != key@,
            decreases self.entries.len() - i,
        {
            if self.entries[i].credential == *key {
                return Some(i);
            }
            i += 1;
        }
        None
    }

    /// The channel registered under a credential, if there is one.
    pub fn channel_of(&self, credential: &str) -> (found: Option<&C>)
        ensures
            match found {
                Some(channel) => is_connected(self@, credential@) && *channel == connection_keyed(
                    self@,
                    credential@,
                ).channel,
                None => !is_connected(self@, credential@),
            },
    {
        let key = credential.to_owned();
        match self.position_of(&key) {
            Some(i) => {
                proof {
                    use_type_invariant(self);
                    lemma_connection_keyed(self@, credential@, i as int);
                }
                Some(&self.entries[i].channel)
            },
            None => None,
        }
    }

    fn withdraw(&mut self, key: &String) -> (removed: Option<C>)
        ensures
            final(self)@ == old(self)@.filter(other_than(key@)),
            match removed {
                Some(channel) => is_connected(old(self)@, key@) && channel == connection_keyed(
                    old(self)@,
                    key@,
                ).channel,
                None => !is_connected(old(self)@, key@),
            },
    {
        match self.position_of(key) {
            Some(i) => {
                proof {
                    use_type_invariant(&*self);
                    lemma_connection_keyed(self@, key@, i as int);
                    lemma_filter_removes_one(self@, other_than(key@), i as int);
                }
                let mut entries: Vec<Connection<C>> = Vec::new();
                std::mem::swap(&mut entries, &mut self.entries);
                let entry = entries.remove(i);
                assert(entries@.map_values(|entry: Connection<C>| entry@) =~= old(self)@.remove(
                    i as int,
                ));
                self.entries = entries;
                Some(entry.channel)
            },
            None => {
                proof {
                    lemma_filter_keeps_all(self@, other_than(key@));
                }
                None
            },
        }
    }

    /// Registers `channel` under `credential`. A connection that was
    /// registered under the same credential is replaced and can no longer
    /// be reached through the registry; its channel is handed back.
    pub fn register(&mut self, credential: String, channel: C) -> (replaced: Option<C>)
        ensures
            final(self)@ == registered(old(self)@, credential@, channel),
            match replaced {
                Some(previous) => is_connected(old(self)@, credential@) && previous
                    == connection_keyed(old(self)@, credential@).channel,
                None => !is_connected(old(self)@, credential@),
            },
    {
        let replaced = self.withdraw(&credential);
        proof {
            use_type_invariant(&*self);
            let kept = self@;
            assert forall|j: int| 0 <= j < kept.len() implies (#[trigger] kept[j]).credential
                != credential@ by {
                lemma_filter_membership(old(self)@, other_than(credential@), kept[j]);
                assert(kept.contains(kept[j]));
            }
        }
        let ghost before = self@;
        let ghost added = ConnectionView { credential: credential@, channel };
        let mut entries: Vec<Connection<C>> = Vec::new();
        std::mem::swap(&mut entries, &mut self.entries);
        entries.push(Connection { credential, channel });
        assert(entries@.map_values(|entry: Connection<C>| entry@) =~= before.push(added));
        self.entries = entries;
        replaced
    }

    /// Removes the connection registered under `credential` and hands its
    /// channel back. Without such a connection nothing changes.
    pub fn unregister(&mut self, credential: &str) -> (removed: Option<C>)
        ensures
            final(self)@ == old(self)@.filter(other_than(credential@)),
            match removed {
                Some(channel) => is_connected(old(self)@, credential@) && channel
                    == connection_keyed(old(self)@, credential@).channel,
                None => !is_connected(old(self)@, credential@),
            },
    {
        let key = credential.to_owned();
        self.withdraw(&key)
    }

    /// Every connection but the one registered under `credential`, in
    /// registration order, each of them once.
    pub fn all_except<'a>(&'a self, credential: &str) -> (others: Vec<&'a Connection<C>>)
        ensures
            connection_views(others@) == self@.filter(other_than(credential@)),
            distinct_credentials(connection_views(others@)),
    {
        proof {
            use_type_invariant(self);
            lemma_filter_distinct(self@, other_than(credential@));
        }
        let key = credential.to_owned();
        let mut others: Vec<&'a Connection<C>> = Vec::new();
        let mut i: usize = 0;
        assert(self@.take(0) =~= Seq::<ConnectionView<C>>::empty());
        assert(connection_views(others@) =~= self@.take(0).filter(other_than(key@))) by {
            reveal(Seq::filter);
        }
        while i < self.entries.len()
            invariant
                i <= self.entries.len(),
                key@ == credential@,
                connection_views(others@) == self@.take(i as int).filter(other_than(key@)),
            decreases self.entries.len() - i,
        {
            proof {
                assert(self@.take(i as int).push(self@[i as int]) =~= self@.take(i + 1));
                self@.take(i as int).lemma_filter_push(self@[i as int], other_than(key@));
            }
            let entry = &self.entries[i];
            if entry.credential != key {
                let ghost before = connection_views(others@);
                others.push(entry);
                assert(connection_views(others@) =~= before.push(entry@));
            }
            i += 1;
        }
        assert(self@.take(i as int) =~= self@);
        others
    }

    /// The connections whose credential names a session of `user`, in
    /// registration order, each of them once. A connection whose
    /// credential names no session is left out.
    pub fn channels_for_user<'a>(&'a self, sessions: &SessionDirectory, user: UserId) -> (held: Vec<
        &'a Connection<C>,
    >)
        ensures
            connection_views(held@) == self@.filter(held_by(sessions@, user)),
            distinct_credentials(connection_views(held@)),
    {
        self.channels_for_users(sessions, user, user)
    }

    /// The connections whose credential names a session of `user` or of
    /// `other`, in registration order, each of them once.
    pub fn channels_for_users<'a>(
        &'a self,
        sessions: &SessionDirectory,
        user: UserId,
        other: UserId,
    ) -> (held: Vec<&'a Connection<C>>)
        ensures
            connection_views(held@) == self@.filter(held_by_either(sessions@, user, other)),
            distinct_credentials(connection_views(held@)),
    {
        proof {
            use_type_invariant(self);
            lemma_filter_distinct(self@, held_by_either(sessions@, user, other));
        }
        let mut held: Vec<&'a Connection<C>> = Vec::new();
        let mut i: usize = 0;
        assert(self@.take(0) =~= Seq::<ConnectionView<C>>::empty());
        assert(connection_views(held@) =~= self@.take(0).filter(
            held_by_either(sessions@, user, other),
        )) by {
            reveal(Seq::filter);
        }
        while i < self.entries.len()
            invariant
                i <= self.entries.len(),
                connection_views(held@) == self@.take(i as int).filter(
                    held_by_either(sessions@, user, other),
                ),
            decreases self.entries.len() - i,
        {
            proof {
                assert(self@.take(i as int).push(self@[i as int]) =~= self@.take(i + 1));
                self@.take(i as int).lemma_filter_push(
                    self@[i as int],
                    held_by_either(sessions@, user, other),
                );
            }
            let entry = &self.entries[i];
            let matches = match sessions.user_of_key(&entry.credential) {
                Some(owner) => owner == user || owner == other,
                None => false,
            };
            if matches {
                let ghost before = connection_views(held@);
                held.push(entry);
                assert(connection_views(held@) =~= before.push(entry@));
            }
            i += 1;
        }
        assert(self@.take(i as int) =~= self@);
        held
    }
}

} // verus!
