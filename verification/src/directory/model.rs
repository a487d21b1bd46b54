//! The directory as a mathematical value: two finite maps and the shutdown
//! signal, the rules that tie them together, and what each operation does to
//! them.

use vstd::prelude::*;
use vstd::relations::injective_on;
use vstd::set_lib::{lemma_len_subset, lemma_map_size};
use crate::session::{AccessLevel, SessionView, Timestamp};
use crate::user::UserView;

verus! {

/// The process-wide shutdown signal: not yet connected to an acceptor,
/// waiting, or already given.
#[derive(Debug, Clone, Copy, PartialEq, Eq, Structural)]
pub enum ShutdownSignal {
    Unset,
    Armed,
    Triggered,
}

/// Where a session stands in its life.
#[derive(Debug, Clone, Copy, PartialEq, Eq, Structural)]
pub enum SessionPhase {
    /// In the directory, not authenticated, a guest.
    Connected,
    /// In the directory, bound to a user.
    Authenticated,
    /// Not in the directory.
    Closed,
}

/// The directory at one moment.
pub struct DirectoryView {
    /// Users by name.
    pub users: Map<Seq<char>, UserView>,
    /// Live sessions by identifier.
    pub sessions: Map<u128, SessionView>,
    pub shutdown: ShutdownSignal,
}

impl DirectoryView {
    /// The rules of the directory. Names and identifiers are the keys their
    /// records carry. No session in the directory is closed. A user points
    /// at a session exactly when that session is authenticated as the user,
    /// an authenticated session has its user's access level, and a session
    /// without a user is a guest.
    pub open spec fn wf(self) -> bool {
        &&& self.users.dom().finite()
        &&& self.sessions.dom().finite()
        &&& forall|name: Seq<char>| #[trigger]
            self.users.contains_key(name) ==> self.users[name].name == name
        &&& forall|id: u128| #[trigger]
            self.sessions.contains_key(id) ==> self.sessions[id].id == id
                && !self.sessions[id].closed
        &&& forall|name: Seq<char>| #[trigger]
            self.users.contains_key(name) ==> (self.users[name].session_id matches Some(id)
                ==> self.sessions.contains_key(id) && self.sessions[id].user == Some(name))
        &&& forall|id: u128| #[trigger]
            self.sessions.contains_key(id) ==> match self.sessions[id].user {
                Some(name) => self.users.contains_key(name) && self.users[name].session_id
                    == Some(id) && self.sessions[id].access_level
                    == self.users[name].access_level,
                None => self.sessions[id].access_level == AccessLevel::Guest,
            }
    }

    /// Where the session stands in its life.
    pub open spec fn phase(self, id: u128) -> SessionPhase {
        if !self.sessions.contains_key(id) {
            SessionPhase::Closed
        } else if self.sessions[id].user is Some {
            SessionPhase::Authenticated
        } else {
            SessionPhase::Connected
        }
    }

    /// Whether the session is in the directory.
    pub open spec fn is_active(self, id: u128) -> bool {
        self.sessions.contains_key(id)
    }

    /// Whether the session is in the directory and authenticated.
    pub open spec fn is_authenticated(self, id: u128) -> bool {
        self.sessions.contains_key(id) && self.sessions[id].user is Some
    }

    /// The access level of the session; a session that is not in the
    /// directory counts as a guest.
    pub open spec fn access_level(self, id: u128) -> AccessLevel {
        if self.sessions.contains_key(id) {
            self.sessions[id].access_level
        } else {
            AccessLevel::Guest
        }
    }

    /// The name of the user the session is authenticated as.
    pub open spec fn username_of(self, id: u128) -> Option<Seq<char>> {
        if self.sessions.contains_key(id) {
            self.sessions[id].user
        } else {
            None
        }
    }

    /// The session that is authenticated as the user.
    pub open spec fn session_of(self, name: Seq<char>) -> Option<u128> {
        if self.users.contains_key(name) {
            self.users[name].session_id
        } else {
            None
        }
    }

    /// The sessions that are authenticated.
    pub open spec fn authenticated_sessions(self) -> Set<u128> {
        Set::new(|id: u128| self.is_authenticated(id))
    }

    /// The users that have a session.
    pub open spec fn bound_users(self) -> Set<Seq<char>> {
        Set::new(|name: Seq<char>| self.session_of(name) is Some)
    }

    /// A user can be added if the name is free and the record points at no
    /// session.
    pub open spec fn can_add_user(self, user: UserView) -> bool {
        !self.users.contains_key(user.name) && user.session_id is None
    }

    /// The directory with one more user.
    pub open spec fn add_user(self, user: UserView) -> DirectoryView {
        DirectoryView { users: self.users.insert(user.name, user), ..self }
    }

    /// A session can be added if its identifier is free and it is as a
    /// connection starts: open, without a user, a guest.
    pub open spec fn can_add_session(self, session: SessionView) -> bool {
        &&& !self.sessions.contains_key(session.id)
        &&& session.user is None
        &&& session.access_level == AccessLevel::Guest
        &&& !session.closed
    }

    /// The directory with one more session.
    pub open spec fn add_session(self, session: SessionView) -> DirectoryView {
        DirectoryView { sessions: self.sessions.insert(session.id, session), ..self }
    }

    /// A session can be bound to a user if both are in the directory, the
    /// session is not authenticated and the user has no session.
    pub open spec fn can_bind(self, id: u128, name: Seq<char>) -> bool {
        &&& self.sessions.contains_key(id)
        &&& self.sessions[id].user is None
        &&& self.users.contains_key(name)
        &&& self.users[name].session_id is None
    }

    /// The directory with the session bound to the user: the session carries
    /// the user's name and access level, the user points at the session.
    pub open spec fn bind(self, id: u128, name: Seq<char>) -> DirectoryView {
        DirectoryView {
            users: self.users.insert(
                name,
                UserView { session_id: Some(id), ..self.users[name] },
            ),
            sessions: self.sessions.insert(
                id,
                SessionView {
                    user: Some(name),
                    access_level: self.users[name].access_level,
                    ..self.sessions[id]
                },
            ),
            ..self
        }
    }

    /// What `authenticate` does: it binds where that is possible and changes
    /// nothing where it is not.
    pub open spec fn authenticate(self, id: u128, name: Seq<char>) -> DirectoryView {
        if self.can_bind(id, name) {
            self.bind(id, name)
        } else {
            self
        }
    }

    /// The directory with the session's access level brought in line with
    /// that of the user it is bound to. Where the session is not in the
    /// directory, or is not bound to the user named, nothing changes.
    pub open spec fn sync_access_level(self, id: u128, name: Seq<char>) -> DirectoryView {
        if self.sessions.contains_key(id) && self.users.contains_key(name) && self.sessions[id].user
            == Some(name) {
            DirectoryView {
                sessions: self.sessions.insert(
                    id,
                    SessionView {
                        access_level: self.users[name].access_level,
                        ..self.sessions[id]
                    },
                ),
                ..self
            }
        } else {
            self
        }
    }

    /// The directory without the session. If the session was authenticated,
    /// its user points at no session any more. Without the session in the
    /// directory, nothing changes.
    pub open spec fn drop_session(self, id: u128) -> DirectoryView {
        if !self.sessions.contains_key(id) {
            self
        } else {
            DirectoryView {
                users: match self.sessions[id].user {
                    Some(name) => self.users.insert(
                        name,
                        UserView { session_id: None, ..self.users[name] },
                    ),
                    None => self.users,
                },
                sessions: self.sessions.remove(id),
                ..self
            }
        }
    }

    /// The directory with a heartbeat recorded for the session. Without the
    /// session in the directory, nothing changes.
    pub open spec fn with_heartbeat(self, id: u128, instant: Timestamp) -> DirectoryView {
        if !self.sessions.contains_key(id) {
            self
        } else {
            DirectoryView {
                sessions: self.sessions.insert(
                    id,
                    SessionView { last_heartbeat: Some(instant), ..self.sessions[id] },
                ),
                ..self
            }
        }
    }
}

/// Adding a user keeps the rules.
pub proof fn lemma_add_user_wf(dir: DirectoryView, user: UserView)
    requires
        dir.wf(),
        dir.can_add_user(user),
    ensures
        dir.add_user(user).wf(),
{
    let after = dir.add_user(user);
    assert forall|name: Seq<char>| #[trigger] after.users.contains_key(name) implies (
    after.users[name].session_id matches Some(id) ==> after.sessions.contains_key(id)
        && after.sessions[id].user == Some(name)) by {
        if name != user.name {
            assert(dir.users.contains_key(name));
        }
    }
    assert forall|id: u128| #[trigger] after.sessions.contains_key(id) implies match after.sessions[id].user {
        Some(name) => after.users.contains_key(name) && after.users[name].session_id == Some(id)
            && after.sessions[id].access_level == after.users[name].access_level,
        None => after.sessions[id].access_level == AccessLevel::Guest,
    } by {
        assert(dir.sessions.contains_key(id));
    }
}

/// Adding a session keeps the rules.
pub proof fn lemma_add_session_wf(dir: DirectoryView, session: SessionView)
    requires
        dir.wf(),
        dir.can_add_session(session),
    ensures
        dir.add_session(session).wf(),
{
    let after = dir.add_session(session);
    assert forall|name: Seq<char>| #[trigger] after.users.contains_key(name) implies (
    after.users[name].session_id matches Some(id) ==> after.sessions.contains_key(id)
        && after.sessions[id].user == Some(name)) by {
        assert(dir.users.contains_key(name));
    }
    assert forall|id: u128| #[trigger] after.sessions.contains_key(id) implies match after.sessions[id].user {
        Some(name) => after.users.contains_key(name) && after.users[name].session_id == Some(id)
            && after.sessions[id].access_level == after.users[name].access_level,
        None => after.sessions[id].access_level == AccessLevel::Guest,
    } by {
        if id != session.id {
            assert(dir.sessions.contains_key(id));
        }
    }
}

/// Authenticating keeps the rules.
pub proof fn lemma_authenticate_wf(dir: DirectoryView, id: u128, name: Seq<char>)
    requires
        dir.wf(),
    ensures
        dir.authenticate(id, name).wf(),
{
    if dir.can_bind(id, name) {
        let after = dir.bind(id, name);
        assert forall|n: Seq<char>| #[trigger] after.users.contains_key(n) implies (
        after.users[n].session_id matches Some(s) ==> after.sessions.contains_key(s)
            && after.sessions[s].user == Some(n)) by {
            if n != name {
                assert(dir.users.contains_key(n));
            }
        }
        assert forall|s: u128| #[trigger] after.sessions.contains_key(s) implies match after.sessions[s].user {
            Some(n) => after.users.contains_key(n) && after.users[n].session_id == Some(s)
                && after.sessions[s].access_level == after.users[n].access_level,
            None => after.sessions[s].access_level == AccessLevel::Guest,
        } by {
            if s != id {
                assert(dir.sessions.contains_key(s));
            }
        }
        assert forall|s: u128| #[trigger] after.sessions.contains_key(s) implies after.sessions[s].id
            == s && !after.sessions[s].closed by {
            if s != id {
                assert(dir.sessions.contains_key(s));
            } else {
                assert(dir.sessions.contains_key(id));
            }
        }
        assert forall|n: Seq<char>| #[trigger] after.users.contains_key(n) implies after.users[n].name
            == n by {
            if n != name {
                assert(dir.users.contains_key(n));
            } else {
                assert(dir.users.contains_key(name));
            }
        }
    }
}

/// In a directory that keeps the rules, the access level of every session
/// agrees with that of its user, so bringing them in line changes nothing.
pub proof fn lemma_sync_access_level_wf(dir: DirectoryView, id: u128, name: Seq<char>)
    ensures
        dir.wf() ==> dir.sync_access_level(id, name) == dir,
{
    if dir.wf() && dir.sessions.contains_key(id) && dir.users.contains_key(name)
        && dir.sessions[id].user == Some(name) {
        assert(dir.sync_access_level(id, name).sessions =~= dir.sessions);
    }
}

/// Taking a session out keeps the rules.
pub proof fn lemma_drop_session_wf(dir: DirectoryView, id: u128)
    requires
        dir.wf(),
    ensures
        dir.drop_session(id).wf(),
{
    if dir.sessions.contains_key(id) {
        let after = dir.drop_session(id);
        assert(dir.sessions.contains_key(id));
        assert forall|n: Seq<char>| #[trigger] after.users.contains_key(n) implies after.users[n].name
            == n by {
            assert(dir.users.contains_key(n));
        }
        assert forall|n: Seq<char>| #[trigger] after.users.contains_key(n) implies (
        after.users[n].session_id matches Some(s) ==> after.sessions.contains_key(s)
            && after.sessions[s].user == Some(n)) by {
            assert(dir.users.contains_key(n));
        }
        assert forall|s: u128| #[trigger] after.sessions.contains_key(s) implies match after.sessions[s].user {
            Some(n) => after.users.contains_key(n) && after.users[n].session_id == Some(s)
                && after.sessions[s].access_level == after.users[n].access_level,
            None => after.sessions[s].access_level == AccessLevel::Guest,
        } by {
            assert(dir.sessions.contains_key(s));
        }
    }
}

/// Recording a heartbeat keeps the rules.
pub proof fn lemma_with_heartbeat_wf(dir: DirectoryView, id: u128, instant: Timestamp)
    requires
        dir.wf(),
    ensures
        dir.with_heartbeat(id, instant).wf(),
{
    if dir.sessions.contains_key(id) {
        let after = dir.with_heartbeat(id, instant);
        assert forall|n: Seq<char>| #[trigger] after.users.contains_key(n) implies (
        after.users[n].session_id matches Some(s) ==> after.sessions.contains_key(s)
            && after.sessions[s].user == Some(n)) by {
            assert(dir.users.contains_key(n));
        }
        assert forall|s: u128| #[trigger] after.sessions.contains_key(s) implies match after.sessions[s].user {
            Some(n) => after.users.contains_key(n) && after.users[n].session_id == Some(s)
                && after.sessions[s].access_level == after.users[n].access_level,
            None => after.sessions[s].access_level == AccessLevel::Guest,
        } by {
            assert(dir.sessions.contains_key(s));
        }
        assert forall|s: u128| #[trigger] after.sessions.contains_key(s) implies after.sessions[s].id
            == s && !after.sessions[s].closed by {
            assert(dir.sessions.contains_key(s));
        }
    }
}

/// Closing is idempotent: taking out a session that is already gone changes
/// nothing.
pub proof fn lemma_drop_session_idempotent(dir: DirectoryView, id: u128)
    ensures
        dir.drop_session(id).drop_session(id) == dir.drop_session(id),
        !dir.drop_session(id).is_active(id),
{
}

/// Sessions and users are bound one to one. Every authenticated session is
/// bound to a user whose pointer leads back to that session, every user with
/// a session is the user of that session, two authenticated sessions never
/// share a user, and there are exactly as many authenticated sessions as
/// there are users with a session.
pub proof fn lemma_bindings_one_to_one(dir: DirectoryView)
    requires
        dir.wf(),
    ensures
        dir.authenticated_sessions().finite(),
        dir.bound_users().finite(),
        dir.authenticated_sessions().len() == dir.bound_users().len(),
        forall|id: u128|
            dir.is_authenticated(id) ==> dir.session_of((#[trigger] dir.username_of(id))->0)
                == Some(id),
        forall|name: Seq<char>|
            dir.session_of(name) is Some ==> dir.username_of(
                (#[trigger] dir.session_of(name))->0,
            ) == Some(name),
        forall|a: u128, b: u128|
            dir.is_authenticated(a) && dir.is_authenticated(b) && a != b ==> #[trigger] dir.username_of(a)
                != #[trigger] dir.username_of(b),
{
    let sessions = dir.authenticated_sessions();
    let users = dir.bound_users();
    let user_of = |id: u128| dir.sessions[id].user->0;
    assert(sessions.subset_of(dir.sessions.dom()));
    lemma_len_subset(sessions, dir.sessions.dom());
    assert forall|a: u128, b: u128|
        sessions.contains(a) && sessions.contains(b) && #[trigger] user_of(a) == #[trigger] user_of(
            b,
        ) implies a == b by {
        assert(dir.sessions.contains_key(a));
        assert(dir.sessions.contains_key(b));
    }
    assert(injective_on(user_of, sessions));
    assert forall|name: Seq<char>| #[trigger] sessions.map(user_of).contains(name) <==> users.contains(name) by {
        if sessions.map(user_of).contains(name) {
            let id = choose|id: u128| sessions.contains(id) && user_of(id) == name;
            assert(dir.sessions.contains_key(id));
        }
        if users.contains(name) {
            assert(dir.users.contains_key(name));
            let id = dir.users[name].session_id->0;
            assert(sessions.contains(id) && user_of(id) == name);
        }
    }
    assert(sessions.map(user_of) =~= users);
    lemma_map_size(sessions, users, user_of);
    assert forall|id: u128| dir.is_authenticated(id) implies dir.session_of(
        (#[trigger] dir.username_of(id))->0,
    ) == Some(id) by {
        assert(dir.sessions.contains_key(id));
    }
    assert forall|name: Seq<char>| dir.session_of(name) is Some implies dir.username_of(
        (#[trigger] dir.session_of(name))->0,
    ) == Some(name) by {
        assert(dir.users.contains_key(name));
    }
    assert forall|a: u128, b: u128|
        dir.is_authenticated(a) && dir.is_authenticated(b) && a != b implies #[trigger] dir.username_of(
        a,
    ) != #[trigger] dir.username_of(b) by {
        assert(dir.sessions.contains_key(a));
        assert(dir.sessions.contains_key(b));
    }
}

/// The directory after one authentication for each pair of a session and a
/// username, in the order of the pairs.
pub open spec fn authenticate_all(dir: DirectoryView, pairs: Seq<(u128, Seq<char>)>) -> DirectoryView
    decreases pairs.len(),
{
    if pairs.len() == 0 {
        dir
    } else {
        authenticate_all(dir, pairs.drop_last()).authenticate(pairs.last().0, pairs.last().1)
    }
}

/// The sessions of the pairs.
pub open spec fn sessions_of(pairs: Seq<(u128, Seq<char>)>) -> Seq<u128> {
    Seq::new(pairs.len(), |i: int| pairs[i].0)
}

/// The usernames of the pairs.
pub open spec fn usernames_of(pairs: Seq<(u128, Seq<char>)>) -> Seq<Seq<char>> {
    Seq::new(pairs.len(), |i: int| pairs[i].1)
}

/// N authentications for N distinct sessions and N distinct users, in any
/// order, starting where nobody is authenticated and every session and user
/// named is in the directory: afterwards exactly those N sessions are
/// authenticated, exactly those N users have a session, each session is
/// bound to its own user and each user points back at its own session.
pub proof fn lemma_authenticate_all(dir: DirectoryView, pairs: Seq<(u128, Seq<char>)>)
    requires
        dir.wf(),
        dir.authenticated_sessions() == Set::<u128>::empty(),
        sessions_of(pairs).no_duplicates(),
        usernames_of(pairs).no_duplicates(),
        forall|i: int|
            0 <= i < pairs.len() ==> dir.is_active((#[trigger] pairs[i]).0)
                && dir.users.contains_key(pairs[i].1),
    ensures
        authenticate_all(dir, pairs).wf(),
        authenticate_all(dir, pairs).authenticated_sessions() == sessions_of(pairs).to_set(),
        authenticate_all(dir, pairs).bound_users() == usernames_of(pairs).to_set(),
        authenticate_all(dir, pairs).authenticated_sessions().len() == pairs.len(),
        authenticate_all(dir, pairs).bound_users().len() == pairs.len(),
        forall|i: int|
            0 <= i < pairs.len() ==> authenticate_all(dir, pairs).username_of(
                (#[trigger] pairs[i]).0,
            ) == Some(pairs[i].1) && authenticate_all(dir, pairs).session_of(pairs[i].1) == Some(
                pairs[i].0,
            ),
        authenticate_all(dir, pairs).users.dom() == dir.users.dom(),
        authenticate_all(dir, pairs).sessions.dom() == dir.sessions.dom(),
    decreases pairs.len(),
{
    let after = authenticate_all(dir, pairs);
    lemma_no_session_no_bound_user(dir);
    if pairs.len() == 0 {
        assert(sessions_of(pairs).to_set() =~= Set::<u128>::empty());
        assert(usernames_of(pairs).to_set() =~= Set::<Seq<char>>::empty());
        assert(after.bound_users() =~= Set::<Seq<char>>::empty());
    } else {
        let shorter = pairs.drop_last();
        let id = pairs.last().0;
        let name = pairs.last().1;
        let before = authenticate_all(dir, shorter);
        assert(sessions_of(shorter) =~= sessions_of(pairs).drop_last());
        assert(usernames_of(shorter) =~= usernames_of(pairs).drop_last());
        assert forall|i: int, j: int| 0 <= i < j < shorter.len() implies sessions_of(shorter)[i]
            != sessions_of(shorter)[j] by {
            assert(sessions_of(pairs)[i] != sessions_of(pairs)[j]);
        }
        assert forall|i: int, j: int| 0 <= i < j < shorter.len() implies usernames_of(shorter)[i]
            != usernames_of(shorter)[j] by {
            assert(usernames_of(pairs)[i] != usernames_of(pairs)[j]);
        }
        assert forall|i: int| 0 <= i < shorter.len() implies dir.is_active(
            (#[trigger] shorter[i]).0,
        ) && dir.users.contains_key(shorter[i].1) by {
            assert(shorter[i] == pairs[i]);
        }
        lemma_authenticate_all(dir, shorter);
        assert(pairs[pairs.len() - 1] == pairs.last());
        assert(before.sessions.contains_key(id));
        assert(before.users.contains_key(name));
        // The new session and the new user are not bound yet.
        if before.is_authenticated(id) {
            assert(sessions_of(shorter).to_set().contains(id));
            let k = choose|k: int| 0 <= k < shorter.len() && sessions_of(shorter)[k] == id;
            assert(sessions_of(pairs)[k] == sessions_of(pairs)[pairs.len() - 1]);
        }
        if before.session_of(name) is Some {
            assert(usernames_of(shorter).to_set().contains(name));
            let k = choose|k: int| 0 <= k < shorter.len() && usernames_of(shorter)[k] == name;
            assert(usernames_of(pairs)[k] == usernames_of(pairs)[pairs.len() - 1]);
        }
        assert(before.can_bind(id, name));
        lemma_authenticate_wf(before, id, name);
        assert(after == before.bind(id, name));
        assert(after.users.dom() =~= dir.users.dom());
        assert(after.sessions.dom() =~= dir.sessions.dom());
        assert(sessions_of(pairs) =~= sessions_of(shorter).push(id));
        assert(usernames_of(pairs) =~= usernames_of(shorter).push(name));
        assert forall|s: u128| #[trigger]
            after.authenticated_sessions().contains(s) <==> sessions_of(pairs).to_set().contains(
                s,
            ) by {
            if s != id {
                assert(after.is_authenticated(s) <==> before.is_authenticated(s));
                assert(before.authenticated_sessions().contains(s) <==> sessions_of(
                    shorter,
                ).to_set().contains(s));
                if sessions_of(shorter).contains(s) {
                    let k = choose|k: int| 0 <= k < shorter.len() && sessions_of(shorter)[k] == s;
                    assert(sessions_of(pairs)[k] == s);
                }
                if sessions_of(pairs).contains(s) {
                    let k = choose|k: int| 0 <= k < pairs.len() && sessions_of(pairs)[k] == s;
                    assert(sessions_of(shorter)[k] == s);
                }
            } else {
                assert(sessions_of(pairs)[pairs.len() - 1] == id);
            }
        }
        assert(after.authenticated_sessions() =~= sessions_of(pairs).to_set());
        assert forall|n: Seq<char>| #[trigger]
            after.bound_users().contains(n) <==> usernames_of(pairs).to_set().contains(n) by {
            if n != name {
                assert(after.session_of(n) == before.session_of(n));
                assert(before.bound_users().contains(n) <==> usernames_of(shorter).to_set().contains(
                    n,
                ));
                if usernames_of(shorter).contains(n) {
                    let k = choose|k: int| 0 <= k < shorter.len() && usernames_of(shorter)[k] == n;
                    assert(usernames_of(pairs)[k] == n);
                }
                if usernames_of(pairs).contains(n) {
                    let k = choose|k: int| 0 <= k < pairs.len() && usernames_of(pairs)[k] == n;
                    assert(usernames_of(shorter)[k] == n);
                }
            } else {
                assert(usernames_of(pairs)[pairs.len() - 1] == name);
            }
        }
        assert(after.bound_users() =~= usernames_of(pairs).to_set());
        assert forall|i: int| 0 <= i < pairs.len() implies after.username_of(
            (#[trigger] pairs[i]).0,
        ) == Some(pairs[i].1) && after.session_of(pairs[i].1) == Some(pairs[i].0) by {
            if i < shorter.len() {
                assert(shorter[i] == pairs[i]);
                assert(sessions_of(pairs)[i] != sessions_of(pairs)[pairs.len() - 1]);
                assert(usernames_of(pairs)[i] != usernames_of(pairs)[pairs.len() - 1]);
            }
        }
    }
    sessions_of(pairs).unique_seq_to_set();
    usernames_of(pairs).unique_seq_to_set();
}

/// Where no session is authenticated, no user has a session.
pub proof fn lemma_no_session_no_bound_user(dir: DirectoryView)
    requires
        dir.wf(),
        dir.authenticated_sessions() == Set::<u128>::empty(),
    ensures
        dir.bound_users() == Set::<Seq<char>>::empty(),
{
    assert forall|name: Seq<char>| !dir.bound_users().contains(name) by {
        if dir.session_of(name) is Some {
            assert(dir.users.contains_key(name));
            let id = dir.users[name].session_id->0;
            assert(dir.authenticated_sessions().contains(id));
        }
    }
    assert(dir.bound_users() =~= Set::<Seq<char>>::empty());
}

} // verus!
