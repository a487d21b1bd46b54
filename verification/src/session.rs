//! Access levels and per-connection session state.

use vstd::prelude::*;
use crate::primitives::{random_u128, utc_now};
use crate::protocol::kind::MessageType;

verus! {

/// An instant: whole seconds since the Unix epoch, and the nanoseconds past
/// them.
#[derive(Debug, Clone, Copy, PartialEq, Eq, Structural)]
pub struct Timestamp {
    pub seconds: i64,
    pub nanos: u32,
}

/// The three tiers that decide which message kinds a session may send.
#[derive(Debug, Clone, Copy, PartialEq, Eq, Hash, Structural)]
pub enum AccessLevel {
    Guest,
    User,
    Admin,
}

/// Kinds open to every connection, authenticated or not.
pub open spec fn guest_group(kind: MessageType) -> bool {
    kind == MessageType::AuthCreate || kind == MessageType::Auth || kind == MessageType::Heartbeat
        || kind == MessageType::Disconnect
}

/// Kinds that an authenticated session gains over a guest.
pub open spec fn user_group(kind: MessageType) -> bool {
    kind == MessageType::DirectMessageSend
}

/// Kinds that only an administrator may send.
pub open spec fn admin_group(kind: MessageType) -> bool {
    kind == MessageType::ServerDebugLog || kind == MessageType::ServerShutdown
}

impl AccessLevel {
    /// Position of the level in the order Guest < User < Admin.
    pub open spec fn rank(self) -> nat {
        match self {
            AccessLevel::Guest => 0,
            AccessLevel::User => 1,
            AccessLevel::Admin => 2,
        }
    }

    /// The allowed set of a level: its own group and the groups of every
    /// lower level.
    pub open spec fn allows(self, kind: MessageType) -> bool {
        ||| guest_group(kind)
        ||| (AccessLevel::User.rank() <= self.rank() && user_group(kind))
        ||| (AccessLevel::Admin.rank() <= self.rank() && admin_group(kind))
    }

    /// Whether a session at this level may send a frame of the given kind.
    pub fn can_access(&self, message_type: &MessageType) -> (allowed: bool)
        ensures
            allowed == self.allows(*message_type),
    {
        let guest = match message_type {
            MessageType::AuthCreate | MessageType::Auth | MessageType::Heartbeat
            | MessageType::Disconnect => true,
            _ => false,
        };
        let user = match message_type {
            MessageType::DirectMessageSend => true,
            _ => false,
        };
        let admin = match message_type {
            MessageType::ServerDebugLog | MessageType::ServerShutdown => true,
            _ => false,
        };
        match self {
            AccessLevel::Guest => guest,
            AccessLevel::User => user || guest,
            AccessLevel::Admin => admin || user || guest,
        }
    }
}

/// A higher level allows everything a lower level allows.
pub proof fn lemma_access_monotone(low: AccessLevel, high: AccessLevel, kind: MessageType)
    requires
        low.rank() <= high.rank(),
        low.allows(kind),
    ensures
        high.allows(kind),
{
}

/// Each level allows strictly more than the level below it: a user may send
/// direct messages and a guest may not; an administrator may shut the server
/// down and a user may not.
pub proof fn lemma_access_strict()
    ensures
        forall|kind: MessageType| AccessLevel::Guest.allows(kind) ==> AccessLevel::User.allows(kind),
        forall|kind: MessageType| AccessLevel::User.allows(kind) ==> AccessLevel::Admin.allows(kind),
        exists|kind: MessageType| AccessLevel::User.allows(kind) && !AccessLevel::Guest.allows(kind),
        exists|kind: MessageType| AccessLevel::Admin.allows(kind) && !AccessLevel::User.allows(kind),
{
    assert(AccessLevel::User.allows(MessageType::DirectMessageSend) && !AccessLevel::Guest.allows(
        MessageType::DirectMessageSend,
    ));
    assert(AccessLevel::Admin.allows(MessageType::ServerShutdown) && !AccessLevel::User.allows(
        MessageType::ServerShutdown,
    ));
}

/// The access table, pair by pair.
pub proof fn lemma_access_table(level: AccessLevel, kind: MessageType)
    ensures
        level.allows(kind) <==> match kind {
            MessageType::AuthCreate | MessageType::Auth | MessageType::Heartbeat
            | MessageType::Disconnect => true,
            MessageType::DirectMessageSend => level != AccessLevel::Guest,
            MessageType::ServerDebugLog | MessageType::ServerShutdown => level
                == AccessLevel::Admin,
            _ => false,
        },
{
}

/// What a session is at one moment.
pub struct SessionView {
    pub id: u128,
    /// The name of the user the session is authenticated as, if any.
    pub user: Option<Seq<char>>,
    pub access_level: AccessLevel,
    pub last_heartbeat: Option<Timestamp>,
    pub closed: bool,
}

impl SessionView {
    /// The session with the instant as its last heartbeat.
    pub open spec fn heard_at(self, instant: Timestamp) -> SessionView {
        SessionView { last_heartbeat: Some(instant), ..self }
    }

    /// A session as it is when its connection has just been accepted.
    pub open spec fn fresh(id: u128) -> SessionView {
        SessionView {
            id,
            user: None,
            access_level: AccessLevel::Guest,
            last_heartbeat: None,
            closed: false,
        }
    }
}

/// Server-side state of one live connection.
#[derive(Debug)]
pub struct Session {
    id: u128,
    user: Option<String>,
    access_level: AccessLevel,
    last_heartbeat: Option<Timestamp>,
    closed: bool,
}

impl View for Session {
    type V = SessionView;

    closed spec fn view(&self) -> SessionView {
        SessionView {
            id: self.id,
            user: match self.user {
                Some(name) => Some(name@),
                None => None,
            },
            access_level: self.access_level,
            last_heartbeat: self.last_heartbeat,
            closed: self.closed,
        }
    }
}

impl Clone for Session {
    fn clone(&self) -> (copy: Self)
        ensures
            copy@ == self@,
    {
        let user = match &self.user {
            Some(name) => Some(name.clone()),
            None => None,
        };
        Session {
            id: self.id,
            user,
            access_level: self.access_level,
            last_heartbeat: self.last_heartbeat,
            closed: self.closed,
        }
    }
}

impl Session {
    /// A fresh session under the given identifier.
    pub fn with_id(id: u128) -> (session: Self)
        ensures
            session@ == SessionView::fresh(id),
    {
        Self {
            id,
            user: None,
            access_level: AccessLevel::Guest,
            closed: false,
            last_heartbeat: None,
        }
    }

    /// A fresh session under a random identifier.
    pub fn new() -> (session: Self)
        ensures
            session@ == SessionView::fresh(session@.id),
    {
        Session::with_id(random_u128())
    }

    /// The identifier of the session.
    pub fn id(&self) -> (id: u128)
        ensures
            id == self@.id,
    {
        self.id
    }

    /// The name of the user the session is authenticated as, if any.
    pub fn user(&self) -> (user: Option<&String>)
        ensures
            match user {
                Some(name) => self@.user == Some(name@),
                None => self@.user is None,
            },
    {
        self.user.as_ref()
    }

    /// Records the user the session is authenticated as.
    pub fn set_user(&mut self, user: String)
        ensures
            final(self)@ == (SessionView { user: Some(user@), ..old(self)@ }),
    {
        self.user = Some(user);
    }

    /// The access level of the session.
    pub fn access_level(&self) -> (level: &AccessLevel)
        ensures
            *level == self@.access_level,
    {
        &self.access_level
    }

    /// Sets the access level and leaves the rest alone.
    pub fn set_access_level(&mut self, access_level: AccessLevel)
        ensures
            final(self)@ == (SessionView { access_level, ..old(self)@ }),
    {
        self.access_level = access_level;
    }

    /// Marks the session closed. Closing a closed session changes nothing.
    pub fn close(&mut self)
        ensures
            final(self)@ == (SessionView { closed: true, ..old(self)@ }),
    {
        self.closed = true;
    }

    /// Whether the session has been closed.
    pub fn is_closed(&self) -> (closed: bool)
        ensures
            closed == self@.closed,
    {
        self.closed
    }

    /// When the peer was last heard of.
    pub fn last_heartbeat(&self) -> (heartbeat: Option<Timestamp>)
        ensures
            heartbeat == self@.last_heartbeat,
    {
        self.last_heartbeat
    }

    /// Records the given instant as the last heartbeat.
    pub fn record_heartbeat(&mut self, heartbeat: Timestamp)
        ensures
            final(self)@ == (SessionView { last_heartbeat: Some(heartbeat), ..old(self)@ }),
    {
        self.last_heartbeat = Some(heartbeat);
    }

    /// Records a heartbeat: the given instant, or the time of the call where
    /// none is given.
    pub fn update_heartbeat(&mut self, heartbeat: Option<Timestamp>)
        ensures
            final(self)@.last_heartbeat is Some,
            heartbeat is Some ==> final(self)@.last_heartbeat == heartbeat,
            final(self)@ == (SessionView {
                last_heartbeat: final(self)@.last_heartbeat,
                ..old(self)@
            }),
    {
        match heartbeat {
            Some(instant) => self.record_heartbeat(instant),
            None => self.record_heartbeat(utc_now()),
        }
    }
}

} // verus!
