//! Session directory: maps a session credential to the session it names.
//!
//! At most one session exists per user: installing a session for a user
//! drops the one that user had before.

use vstd::prelude::*;
use crate::errors::ChatError;
use crate::records::{SessionView, UserSession};
use crate::seqs::{lemma_filter_keeps_all, lemma_filter_membership, lemma_filter_removes_one};
use crate::stamps::UserId;

verus! {

/// Some record of `sessions` is named by `key`.
pub open spec fn has_session(sessions: Seq<SessionView>, key: Seq<char>) -> bool {
    exists|i: int| 0 <= i < sessions.len() && (#[trigger] sessions[i]).session_key == key
}

/// The record of `sessions` that `key` names, where there is one.
pub open spec fn session_keyed(sessions: Seq<SessionView>, key: Seq<char>) -> SessionView {
    sessions[choose|i: int| 0 <= i < sessions.len() && (#[trigger] sessions[i]).session_key == key]
}

/// Some record of `sessions` belongs to `user`.
pub open spec fn has_session_of(sessions: Seq<SessionView>, user: UserId) -> bool {
    exists|i: int| 0 <= i < sessions.len() && (#[trigger] sessions[i]).user_id == user
}

/// The record of `sessions` that belongs to `user`, where there is one.
pub open spec fn session_of(sessions: Seq<SessionView>, user: UserId) -> SessionView {
    sessions[choose|i: int| 0 <= i < sessions.len() && (#[trigger] sessions[i]).user_id == user]
}

/// The user whose session `key` names, if it names one.
pub open spec fn session_user(sessions: Seq<SessionView>, key: Seq<char>) -> Option<UserId> {
    if has_session(sessions, key) {
        Some(session_keyed(sessions, key).user_id)
    } else {
        None
    }
}

/// No two records share a credential.
pub open spec fn distinct_keys(sessions: Seq<SessionView>) -> bool {
    forall|i: int, j: int|
        0 <= i < j < sessions.len() ==> (#[trigger] sessions[i]).session_key != (
        #[trigger] sessions[j]).session_key
}

/// No two records belong to one user.
pub open spec fn distinct_users(sessions: Seq<SessionView>) -> bool {
    forall|i: int, j: int|
        0 <= i < j < sessions.len() ==> (#[trigger] sessions[i]).user_id != (
        #[trigger] sessions[j]).user_id
}

/// Holds of the records that `key` does not name.
pub open spec fn not_keyed(key: Seq<char>) -> spec_fn(SessionView) -> bool {
    |record: SessionView| record.session_key != key
}

/// Holds of the records that do not belong to `user`.
pub open spec fn not_of_user(user: UserId) -> spec_fn(SessionView) -> bool {
    |record: SessionView| record.user_id != user
}

/// The directory after `session` was installed: the records of its user
/// and the record that its credential named are gone, and it stands last.
pub open spec fn installed(sessions: Seq<SessionView>, session: SessionView) -> Seq<SessionView> {
    sessions.filter(not_of_user(session.user_id)).filter(not_keyed(session.session_key)).push(
        session,
    )
}

/// With distinct credentials, a record that `key` names is the record that
/// `key` names.
pub proof fn lemma_session_keyed(sessions: Seq<SessionView>, key: Seq<char>, i: int)
    requires
        distinct_keys(sessions),
        0 <= i < sessions.len(),
        sessions[i].session_key == key,
    ensures
        has_session(sessions, key),
        session_keyed(sessions, key) == sessions[i],
{
    let j = choose|j: int| 0 <= j < sessions.len() && (#[trigger] sessions[j]).session_key == key;
    assert(j == i);
}

/// With one record per user at most, a record of `user` is the record of
/// `user`.
pub proof fn lemma_session_of(sessions: Seq<SessionView>, user: UserId, i: int)
    requires
        distinct_users(sessions),
        0 <= i < sessions.len(),
        sessions[i].user_id == user,
    ensures
        has_session_of(sessions, user),
        session_of(sessions, user) == sessions[i],
{
    let j = choose|j: int| 0 <= j < sessions.len() && (#[trigger] sessions[j]).user_id == user;
    assert(j == i);
}

/// The sessions that exist, in the order in which they were installed.
pub struct SessionDirectory {
    records: Vec<UserSession>,
}

impl View for SessionDirectory {
    type V = Seq<SessionView>;

    closed spec fn view(&self) -> Seq<SessionView> {
        self.records@.map_values(|record: UserSession| record@)
    }
}

impl SessionDirectory {
    /// Credentials are distinct, and no user has two sessions.
    #[verifier::type_invariant]
    pub open spec fn wf(&self) -> bool {
        distinct_keys(self@) && distinct_users(self@)
    }

    /// A directory without sessions.
    pub fn new() -> (directory: SessionDirectory)
        ensures
            directory@ == Seq::<SessionView>::empty(),
    {
        let records: Vec<UserSession> = Vec::new();
        assert(records@.map_values(|record: UserSession| record@) =~= Seq::<SessionView>::empty());
        SessionDirectory { records }
    }

    /// Number of sessions.
    pub fn len(&self) -> (n: usize)
        ensures
            n == self@.len(),
    {
        self.records.len()
    }

    fn position_of_key(&self, key: &String) -> (at: Option<usize>)
        ensures
            match at {
                Some(i) => i < self@.len() && self@[i as int].session_key == key@,
                None => !has_session(self@, key@),
            },
    {
        let mut i: usize = 0;
        while i < self.records.len()
            invariant
                i <= self.records.len(),
                forall|j: int| 0 <= j < i ==> (#[trigger] self@[j]).session_key != key@,
            decreases self.records.len() - i,
        {
            if self.records[i].session_key == *key {
                return Some(i);
            }
            i += 1;
        }
        None
    }

    fn position_of_user(&self, user: UserId) -> (at: Option<usize>)
        ensures
            match at {
                Some(i) => i < self@.len() && self@[i as int].user_id == user,
                None => !has_session_of(self@, user),
            },
    {
        let mut i: usize = 0;
        while i < self.records.len()
            invariant
                i <= self.records.len(),
                forall|j: int| 0 <= j < i ==> (#[trigger] self@[j]).user_id != user,
            decreases self.records.len() - i,
        {
            if self.records[i].user_id == user {
                return Some(i);
            }
            i += 1;
        }
        None
    }

    /// Resolves a credential to its session. Nothing changes.
    pub fn resolve(&self, credential: &str) -> (found: Result<UserSession, ChatError>)
        ensures
            match found {
                Ok(session) => has_session(self@, credential@) && session@ == session_keyed(
                    self@,
                    credential@,
                ),
                Err(e) => e == ChatError::BadSession && !has_session(self@, credential@),
            },
    {
        let key = credential.to_owned();
        match self.position_of_key(&key) {
            Some(i) => {
                proof {
                    use_type_invariant(self);
                    lemma_session_keyed(self@, credential@, i as int);
                }
                Ok(self.records[i].clone())
            },
            None => Err(ChatError::BadSession),
        }
    }

    /// The user behind a credential, if it names a session.
    pub fn user_of(&self, credential: &str) -> (user: Option<UserId>)
        ensures
            user == session_user(self@, credential@),
    {
        let key = credential.to_owned();
        self.user_of_key(&key)
    }

    pub(crate) fn user_of_key(&self, credential: &String) -> (user: Option<UserId>)
        ensures
            user == session_user(self@, credential@),
    {
        match self.position_of_key(credential) {
            Some(i) => {
                proof {
                    use_type_invariant(self);
                    lemma_session_keyed(self@, credential@, i as int);
                }
                Some(self.records[i].user_id)
            },
            None => None,
        }
    }

    /// The session of a user, if they have one.
    pub fn current(&self, user: UserId) -> (found: Option<UserSession>)
        ensures
            match found {
                Some(session) => has_session_of(self@, user) && session@ == session_of(
                    self@,
                    user,
                ),
                None => !has_session_of(self@, user),
            },
    {
        match self.position_of_user(user) {
            Some(i) => {
                proof {
                    use_type_invariant(self);
                    lemma_session_of(self@, user, i as int);
                }
                Some(self.records[i].clone())
            },
            None => None,
        }
    }

    fn take_at(&mut self, i: usize) -> (taken: UserSession)
        requires
            i < old(self)@.len(),
        ensures
            final(self)@ == old(self)@.remove(i as int),
            taken@ == old(self)@[i as int],
    {
        proof {
            use_type_invariant(&*self);
        }
        let mut records: Vec<UserSession> = Vec::new();
        std::mem::swap(&mut records, &mut self.records);
        let taken = records.remove(i);
        assert(records@.map_values(|record: UserSession| record@) =~= old(self)@.remove(i as int));
        self.records = records;
        taken
    }

    /// Drops the session of `user` and hands it back, if there was one.
    pub fn revoke_user(&mut self, user: UserId) -> (revoked: Option<UserSession>)
        ensures
            final(self)@ == old(self)@.filter(not_of_user(user)),
            match revoked {
                Some(session) => has_session_of(old(self)@, user) && session@ == session_of(
                    old(self)@,
                    user,
                ),
                None => !has_session_of(old(self)@, user),
            },
    {
        match self.position_of_user(user) {
            Some(i) => {
                proof {
                    use_type_invariant(&*self);
                    lemma_session_of(self@, user, i as int);
                    lemma_filter_removes_one(self@, not_of_user(user), i as int);
                }
                Some(self.take_at(i))
            },
            None => {
                proof {
                    lemma_filter_keeps_all(self@, not_of_user(user));
                }
                None
            },
        }
    }

    /// Drops the session that `credential` names and hands it back, if
    /// there was one.
    pub fn revoke_key(&mut self, credential: &str) -> (revoked: Option<UserSession>)
        ensures
            final(self)@ == old(self)@.filter(not_keyed(credential@)),
            match revoked {
                Some(session) => has_session(old(self)@, credential@) && session@
                    == session_keyed(old(self)@, credential@),
                None => !has_session(old(self)@, credential@),
            },
    {
        let key = credential.to_owned();
        self.revoke(&key)
    }

    fn revoke(&mut self, key: &String) -> (revoked: Option<UserSession>)
        ensures
            final(self)@ == old(self)@.filter(not_keyed(key@)),
            match revoked {
                Some(session) => has_session(old(self)@, key@) && session@ == session_keyed(
                    old(self)@,
                    key@,
                ),
                None => !has_session(old(self)@, key@),
            },
    {
        match self.position_of_key(key) {
            Some(i) => {
                proof {
                    use_type_invariant(&*self);
                    lemma_session_keyed(self@, key@, i as int);
                    lemma_filter_removes_one(self@, not_keyed(key@), i as int);
                }
                Some(self.take_at(i))
            },
            None => {
                proof {
                    lemma_filter_keeps_all(self@, not_keyed(key@));
                }
                None
            },
        }
    }

    /// Installs `session` as the one session of its user. The session that
    /// the user had before is dropped and handed back, so that its
    /// connection can be closed; a record of another user that the new
    /// credential named is overwritten.
    pub fn install(&mut self, session: UserSession) -> (superseded: Option<UserSession>)
        ensures
            final(self)@ == installed(old(self)@, session@),
            match superseded {
                Some(previous) => has_session_of(old(self)@, session.user_id) && previous@
                    == session_of(old(self)@, session.user_id),
                None => !has_session_of(old(self)@, session.user_id),
            },
    {
        let superseded = self.revoke_user(session.user_id);
        let _ = self.revoke(&session.session_key);
        proof {
            use_type_invariant(&*self);
            let kept = self@;
            assert forall|j: int| 0 <= j < kept.len() implies (#[trigger] kept[j]).user_id
                != session.user_id && kept[j].session_key != session.session_key@ by {
                lemma_kept(old(self)@, session@, j);
            }
        }
        let ghost before = self@;
        let ghost added = session@;
        let mut records: Vec<UserSession> = Vec::new();
        std::mem::swap(&mut records, &mut self.records);
        records.push(session);
        assert(records@.map_values(|record: UserSession| record@) =~= before.push(added));
        self.records = records;
        superseded
    }
}

/// No record left after the two revocations of an installation belongs to
/// the user or is named by the credential.
proof fn lemma_kept(sessions: Seq<SessionView>, session: SessionView, j: int)
    requires
        0 <= j < sessions.filter(not_of_user(session.user_id)).filter(
            not_keyed(session.session_key),
        ).len(),
    ensures
        ({
            let kept = sessions.filter(not_of_user(session.user_id)).filter(
                not_keyed(session.session_key),
            );
            kept[j].user_id != session.user_id && kept[j].session_key != session.session_key
        }),
{
    let first = sessions.filter(not_of_user(session.user_id));
    let kept = first.filter(not_keyed(session.session_key));
    lemma_filter_membership(first, not_keyed(session.session_key), kept[j]);
    lemma_filter_membership(sessions, not_of_user(session.user_id), kept[j]);
    assert(kept.contains(kept[j]));
}

} // verus!
