//! The directory as the server holds it.

use std::collections::HashMap;
use vstd::prelude::*;
use vstd::std_specs::hash::{group_hash_axioms, spec_keys_iter};
use vstd::std_specs::iter::IteratorSpec;
use crate::assoc::{as_map, keys_unique, lemma_absent, lemma_entry, lemma_push, lemma_update};
use crate::directory::model::{
    lemma_add_session_wf, lemma_add_user_wf, lemma_authenticate_wf, lemma_drop_session_wf,
    lemma_sync_access_level_wf, lemma_with_heartbeat_wf, DirectoryView, ShutdownSignal,
};
use crate::primitives::utc_now;
use crate::session::{AccessLevel, Session, SessionView, Timestamp};
use crate::text::same_text;
use crate::user::{User, UserView};

verus! {

broadcast use group_hash_axioms;

/// The users as entries under their names.
pub open spec fn user_entries(users: Seq<User>) -> Seq<(Seq<char>, UserView)> {
    Seq::new(users.len(), |i: int| (users[i]@.name, users[i]@))
}

/// What the sessions of a map say.
pub open spec fn session_views(sessions: Map<u128, Session>) -> Map<u128, SessionView> {
    sessions.map_values(|session: Session| session@)
}

/// The registry of users and sessions, with the shutdown signal. Users are
/// kept in the order in which they were added and found by their names;
/// sessions are kept in a hash map under their identifiers.
#[derive(Debug)]
pub struct SharedState {
    users: Vec<User>,
    sessions: HashMap<u128, Session>,
    shutdown: ShutdownSignal,
}

impl View for SharedState {
    type V = DirectoryView;

    closed spec fn view(&self) -> DirectoryView {
        DirectoryView {
            users: as_map(user_entries(self.users@)),
            sessions: session_views(self.sessions@),
            shutdown: self.shutdown,
        }
    }
}

/// The name and password verifier of the administrator that every directory
/// starts with.
pub open spec fn built_in_admin() -> UserView {
    UserView {
        name: "luffy"@,
        pw_hash: "$argon2id$v=19$m=19456,t=2,p=1$cmFuZG9tc2FsdA$jDQwPD4k6mPV4oT/0Y4M2nhVSGDxpbbJaxIbNYc84rU"@,
        access_level: AccessLevel::Admin,
        session_id: None,
    }
}

impl SharedState {
    /// No name is stored twice. This is all that looking a user up needs.
    pub closed spec fn stored(&self) -> bool {
        keys_unique(user_entries(self.users@))
    }

    /// No name is stored twice, and the directory keeps its rules.
    pub closed spec fn wf(&self) -> bool {
        &&& self.stored()
        &&& self@.wf()
    }

    /// A valid directory keeps the rules of the model.
    pub proof fn lemma_wf(&self)
        requires
            self.wf(),
        ensures
            self@.wf(),
            self.stored(),
    {
    }

    fn find_user(&self, name: &str) -> (found: Option<usize>)
        requires
            self.stored(),
        ensures
            match found {
                Some(i) => i < self.users@.len() && self.users@[i as int]@.name == name@
                    && self@.users.contains_key(name@) && self@.users[name@]
                    == self.users@[i as int]@,
                None => !self@.users.contains_key(name@),
            },
    {
        let mut i: usize = 0;
        while i < self.users.len()
            invariant
                self.stored(),
                i <= self.users@.len(),
                forall|k: int| 0 <= k < i ==> self.users@[k]@.name != name@,
            decreases self.users@.len() - i,
        {
            if same_text(self.users[i].name(), name) {
                proof {
                    lemma_entry(user_entries(self.users@), i as int);
                }
                return Some(i);
            }
            i += 1;
        }
        proof {
            lemma_absent(user_entries(self.users@), name@);
        }
        None
    }

    fn find_session(&self, id: u128) -> (found: Option<&Session>)
        ensures
            match found {
                Some(session) => self@.sessions.contains_key(id) && self@.sessions[id] == session@,
                None => !self@.sessions.contains_key(id),
            },
    {
        self.sessions.get(&id)
    }

    /// Puts a session under its identifier, in place of what was there.
    fn put_session(&mut self, id: u128, session: Session)
        ensures
            final(self).users == old(self).users,
            final(self).shutdown == old(self).shutdown,
            final(self)@.sessions == old(self)@.sessions.insert(id, session@),
    {
        self.sessions.insert(id, session);
        assert(self@.sessions =~= old(self)@.sessions.insert(id, session@));
    }

    /// Takes the session under an identifier out, if there is one.
    fn take_session(&mut self, id: u128) -> (taken: Option<Session>)
        ensures
            final(self).users == old(self).users,
            final(self).shutdown == old(self).shutdown,
            final(self)@.sessions == old(self)@.sessions.remove(id),
            match taken {
                Some(session) => old(self)@.sessions.contains_key(id) && old(self)@.sessions[id]
                    == session@,
                None => !old(self)@.sessions.contains_key(id),
            },
    {
        let taken = self.sessions.remove(&id);
        assert(self@.sessions =~= old(self)@.sessions.remove(id));
        taken
    }

    /// Puts a record in the place of the user at a position. The name stays.
    fn put_user(&mut self, at: usize, user: User)
        requires
            old(self).stored(),
            at < old(self).users@.len(),
            user@.name == old(self).users@[at as int]@.name,
        ensures
            final(self).stored(),
            final(self).sessions == old(self).sessions,
            final(self).shutdown == old(self).shutdown,
            final(self)@.users == old(self)@.users.insert(user@.name, user@),
    {
        proof {
            lemma_update(user_entries(self.users@), at as int, user@);
            assert(user_entries(self.users@.update(at as int, user)) =~= user_entries(
                self.users@,
            ).update(at as int, (user@.name, user@)));
        }
        self.users.set(at, user);
    }

    /// The directory at startup: the built-in administrator, no sessions, no
    /// shutdown signal.
    pub fn new() -> (state: Self)
        ensures
            state.wf(),
            state@.users == Map::<Seq<char>, UserView>::empty().insert(
                built_in_admin().name,
                built_in_admin(),
            ),
            state@.sessions == Map::<u128, SessionView>::empty(),
            state@.shutdown == ShutdownSignal::Unset,
    {
        let mut admin = User::new(
            "luffy",
            "$argon2id$v=19$m=19456,t=2,p=1$cmFuZG9tc2FsdA$jDQwPD4k6mPV4oT/0Y4M2nhVSGDxpbbJaxIbNYc84rU".to_string(),
        );
        admin.set_access_level(AccessLevel::Admin);
        let mut users: Vec<User> = Vec::new();
        users.push(admin);
        let state = Self { users, sessions: HashMap::new(), shutdown: ShutdownSignal::Unset };
        proof {
            let none = Seq::<(Seq<char>, UserView)>::empty();
            assert(as_map(none) =~= Map::<Seq<char>, UserView>::empty());
            lemma_push(none, built_in_admin().name, built_in_admin());
            assert(user_entries(state.users@) =~= none.push(
                (built_in_admin().name, built_in_admin()),
            ));
            assert(state@.sessions =~= Map::<u128, SessionView>::empty());
            lemma_add_user_wf(
                DirectoryView {
                    users: Map::empty(),
                    sessions: Map::empty(),
                    shutdown: ShutdownSignal::Unset,
                },
                built_in_admin(),
            );
        }
        state
    }

    /// Adds a user under a name. The user is taken if the name is the one in
    /// the record, no user has it yet and the record points at no session;
    /// otherwise nothing changes.
    pub fn add_user(&mut self, name: String, user: User) -> (added: bool)
        requires
            old(self).wf(),
        ensures
            final(self).wf(),
            added == (name@ == user@.name && old(self)@.can_add_user(user@)),
            added ==> final(self)@ == old(self)@.add_user(user@),
            !added ==> final(self)@ == old(self)@,
    {
        if !same_text(name.as_str(), user.name()) || user.session_id().is_some() {
            return false;
        }
        if self.find_user(name.as_str()).is_some() {
            return false;
        }
        proof {
            lemma_push(user_entries(self.users@), user@.name, user@);
            lemma_add_user_wf(self@, user@);
            assert(user_entries(self.users@.push(user)) =~= user_entries(self.users@).push(
                (user@.name, user@),
            ));
        }
        self.users.push(user);
        true
    }

    /// Registers the session of a connection that has just been accepted. The
    /// session is taken if the identifier is its own, no session has it yet
    /// and the session is open, without a user and a guest; otherwise nothing
    /// changes.
    pub fn add_session(&mut self, id: u128, session: Session) -> (added: bool)
        requires
            old(self).wf(),
        ensures
            final(self).wf(),
            added == (id == session@.id && old(self)@.can_add_session(session@)),
            added ==> final(self)@ == old(self)@.add_session(session@),
            !added ==> final(self)@ == old(self)@,
    {
        if session.id() != id || session.user().is_some() || session.is_closed() {
            return false;
        }
        match session.access_level() {
            AccessLevel::Guest => {},
            _ => {
                return false;
            },
        }
        if self.find_session(id).is_some() {
            return false;
        }
        proof {
            lemma_add_session_wf(self@, session@);
        }
        self.put_session(id, session);
        true
    }

    /// Connects the shutdown signal to a waiting acceptor. A signal that was
    /// already given stays given.
    pub fn set_shutdown_signal(&mut self)
        requires
            old(self).wf(),
        ensures
            final(self).wf(),
            final(self)@ == (DirectoryView {
                shutdown: if old(self)@.shutdown == ShutdownSignal::Triggered {
                    ShutdownSignal::Triggered
                } else {
                    ShutdownSignal::Armed
                },
                ..old(self)@
            }),
    {
        match self.shutdown {
            ShutdownSignal::Triggered => {},
            _ => {
                self.shutdown = ShutdownSignal::Armed;
            },
        }
    }

    /// Gives the shutdown signal. The result says whether the acceptor is to
    /// be told: that is so the first time the signal is given while an
    /// acceptor waits for it.
    pub fn trigger_shutdown(&mut self) -> (notify: bool)
        requires
            old(self).wf(),
        ensures
            final(self).wf(),
            notify == (old(self)@.shutdown == ShutdownSignal::Armed),
            final(self)@ == (DirectoryView {
                shutdown: if notify {
                    ShutdownSignal::Triggered
                } else {
                    old(self)@.shutdown
                },
                ..old(self)@
            }),
    {
        match self.shutdown {
            ShutdownSignal::Armed => {
                self.shutdown = ShutdownSignal::Triggered;
                true
            },
            _ => false,
        }
    }

    /// The state of the shutdown signal.
    pub fn shutdown_signal(&self) -> (signal: ShutdownSignal)
        ensures
            signal == self@.shutdown,
    {
        self.shutdown
    }

    /// The record of the user with the given name.
    pub fn get_user(&self, name: &str) -> (user: Option<&User>)
        requires
            self.wf(),
        ensures
            match user {
                Some(u) => self@.users.contains_key(name@) && u@ == self@.users[name@],
                None => !self@.users.contains_key(name@),
            },
    {
        match self.find_user(name) {
            Some(i) => Some(&self.users[i]),
            None => None,
        }
    }

    /// The session with the given identifier.
    pub fn get_session(&self, id: u128) -> (session: Option<&Session>)
        requires
            self.wf(),
        ensures
            match session {
                Some(s) => self@.sessions.contains_key(id) && s@ == self@.sessions[id],
                None => !self@.sessions.contains_key(id),
            },
    {
        self.find_session(id)
    }

    /// The identifiers of all sessions in the directory, each once, in no
    /// particular order.
    pub fn sessions(&self) -> (ids: Vec<u128>)
        requires
            self.wf(),
        ensures
            ids@.no_duplicates(),
            forall|id: u128| ids@.contains(id) <==> self@.sessions.contains_key(id),
    {
        let mut ids: Vec<u128> = Vec::new();
        let ghost all = spec_keys_iter(&self.sessions).remaining();
        for id in keys: self.sessions.keys()
            invariant
                keys.seq() == all,
                ids@.len() == keys.index(),
                forall|k: int| 0 <= k < ids@.len() ==> ids@[k] == *all[k],
        {
            ids.push(*id);
        }
        proof {
            assert(ids@ =~= all.unref());
            assert(all.unref().to_set() == self.sessions@.dom());
            assert forall|i: int, j: int|
                0 <= i < ids@.len() && 0 <= j < ids@.len() && i != j implies ids@[i]
                != ids@[j] by {
                assert(all[i] != all[j]);
            }
            assert forall|id: u128| ids@.contains(id) <==> self@.sessions.contains_key(id) by {
                assert(ids@.to_set().contains(id) <==> ids@.contains(id));
            }
        }
        ids
    }

    /// Takes a session out of the directory; if it was authenticated, its
    /// user points at no session any more. A session that is not in the
    /// directory is left as it is.
    pub fn remove_session(&mut self, id: u128)
        requires
            old(self).wf(),
        ensures
            final(self).wf(),
            final(self)@ == old(self)@.drop_session(id),
    {
        proof {
            lemma_drop_session_wf(self@, id);
        }
        match self.take_session(id) {
            None => {
                assert(self@.sessions =~= old(self)@.sessions);
            },
            Some(session) => {
                match session.user() {
                    None => {},
                    Some(name) => {
                        assert(old(self)@.sessions.contains_key(id));
                        match self.find_user(name.as_str()) {
                            None => {},
                            Some(at) => {
                                let mut user = self.users[at].clone();
                                user.remove_session_id();
                                self.put_user(at, user);
                            },
                        }
                    },
                }
            },
        }
    }

    /// Whether the session is in the directory and open.
    pub fn is_active_session(&self, id: u128) -> (active: bool)
        requires
            self.wf(),
        ensures
            active == self@.is_active(id),
    {
        match self.find_session(id) {
            Some(session) => !session.is_closed(),
            None => false,
        }
    }

    /// Tears a session down: marks it closed and takes it out of the
    /// directory, unbinding its user. Closing a session that is already gone
    /// changes nothing.
    pub fn close_session(&mut self, id: u128)
        requires
            old(self).wf(),
        ensures
            final(self).wf(),
            final(self)@ == old(self)@.drop_session(id),
            !final(self)@.is_active(id),
    {
        self.remove_session(id);
    }

    /// Records a heartbeat for the session: the given instant, or the time of
    /// the call where none is given. A session that is not in the directory
    /// is left as it is.
    pub fn update_heartbeat(&mut self, id: u128, heartbeat: Option<Timestamp>)
        requires
            old(self).wf(),
        ensures
            final(self).wf(),
            heartbeat matches Some(instant) ==> final(self)@ == old(self)@.with_heartbeat(
                id,
                instant,
            ),
            exists|instant: Timestamp| final(self)@ == #[trigger] old(self)@.with_heartbeat(id, instant),
    {
        let instant = match heartbeat {
            Some(instant) => instant,
            None => utc_now(),
        };
        self.record_heartbeat(id, instant);
    }

    /// Records the given instant as the session's last heartbeat. A session
    /// that is not in the directory is left as it is.
    pub fn record_heartbeat(&mut self, id: u128, instant: Timestamp)
        requires
            old(self).wf(),
        ensures
            final(self).wf(),
            final(self)@ == old(self)@.with_heartbeat(id, instant),
    {
        proof {
            lemma_with_heartbeat_wf(self@, id, instant);
        }
        match self.take_session(id) {
            None => {
                assert(self@.sessions =~= old(self)@.sessions);
            },
            Some(session) => {
                let mut session = session;
                session.record_heartbeat(instant);
                self.put_session(id, session);
                assert(self@.sessions =~= old(self)@.with_heartbeat(id, instant).sessions);
            },
        }
    }

    /// Whether the session is in the directory and authenticated.
    pub fn is_authenticated(&self, id: u128) -> (authenticated: bool)
        requires
            self.wf(),
        ensures
            authenticated == self@.is_authenticated(id),
    {
        match self.find_session(id) {
            Some(session) => session.user().is_some(),
            None => false,
        }
    }

    /// Binds a session to a user: the session takes the user's name and
    /// access level and the user points at the session. This happens where
    /// both are in the directory, the session is not yet authenticated and
    /// the user has no session; otherwise nothing changes.
    pub fn authenticate(&mut self, id: u128, user: String)
        requires
            old(self).wf(),
        ensures
            final(self).wf(),
            final(self)@ == old(self)@.authenticate(id, user@),
    {
        let free = match self.find_session(id) {
            Some(session) => session.user().is_none(),
            None => false,
        };
        if !free {
            return ;
        }
        let at = match self.find_user(user.as_str()) {
            Some(at) => at,
            None => {
                return ;
            },
        };
        if self.users[at].session_id().is_some() {
            return ;
        }
        proof {
            lemma_authenticate_wf(self@, id, user@);
        }
        let mut record = self.users[at].clone();
        record.set_session_id(id);
        self.put_user(at, record);
        match self.take_session(id) {
            None => {},
            Some(session) => {
                let mut session = session;
                session.set_user(user.clone());
                self.put_session(id, session);
            },
        }
        self.sync_access_level(id, user.as_str());
        assert(self@.sessions =~= old(self)@.bind(id, user@).sessions);
        assert(self@.users =~= old(self)@.bind(id, user@).users);
    }

    /// Brings the access level of a session in line with that of the user it
    /// is bound to. Where the session is not in the directory, or is not
    /// bound to the user named, nothing changes. In a valid directory the two
    /// levels agree already; `authenticate` uses this as its last step, when
    /// they do not yet.
    pub fn sync_access_level(&mut self, id: u128, user: &str)
        requires
            old(self).stored(),
        ensures
            final(self).stored(),
            final(self)@ == old(self)@.sync_access_level(id, user@),
            old(self).wf() ==> final(self).wf(),
    {
        proof {
            lemma_sync_access_level_wf(self@, id, user@);
        }
        let level = match self.find_user(user) {
            Some(at) => *self.users[at].access_level(),
            None => {
                return ;
            },
        };
        let bound = match self.find_session(id) {
            Some(session) => match session.user() {
                Some(name) => same_text(name.as_str(), user),
                None => false,
            },
            None => false,
        };
        if !bound {
            return ;
        }
        match self.take_session(id) {
            None => {},
            Some(session) => {
                let mut session = session;
                session.set_access_level(level);
                self.put_session(id, session);
                assert(self@.sessions =~= old(self)@.sync_access_level(id, user@).sessions);
            },
        }
    }

    /// The access level of the session; a session that is not in the
    /// directory counts as a guest.
    pub fn get_access_level(&self, id: u128) -> (level: AccessLevel)
        requires
            self.wf(),
        ensures
            level == self@.access_level(id),
    {
        match self.find_session(id) {
            Some(session) => *session.access_level(),
            None => AccessLevel::Guest,
        }
    }

    /// The name of the user the session is authenticated as.
    pub fn get_user_by_session(&self, id: u128) -> (name: Option<String>)
        requires
            self.wf(),
        ensures
            match name {
                Some(n) => self@.username_of(id) == Some(n@),
                None => self@.username_of(id) is None,
            },
    {
        match self.find_session(id) {
            Some(session) => match session.user() {
                Some(name) => Some(name.clone()),
                None => None,
            },
            None => None,
        }
    }

    /// The session that is authenticated as the user.
    pub fn get_session_by_user(&self, name: &str) -> (id: Option<u128>)
        requires
            self.wf(),
        ensures
            id == self@.session_of(name@),
    {
        match self.find_user(name) {
            Some(i) => self.users[i].session_id(),
            None => None,
        }
    }
}

} // verus!
