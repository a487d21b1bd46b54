//! Registered users.

use vstd::prelude::*;
use crate::session::AccessLevel;

verus! {

/// What a user record says.
pub struct UserView {
    pub name: Seq<char>,
    pub pw_hash: Seq<char>,
    pub access_level: AccessLevel,
    /// The one live session that is authenticated as this user, if any.
    pub session_id: Option<u128>,
}

/// A registered user. The record outlives the user's sessions.
#[derive(Debug)]
pub struct User {
    name: String,
    pw_hash: String,
    access_level: AccessLevel,
    session_id: Option<u128>,
}

impl View for User {
    type V = UserView;

    closed spec fn view(&self) -> UserView {
        UserView {
            name: self.name@,
            pw_hash: self.pw_hash@,
            access_level: self.access_level,
            session_id: self.session_id,
        }
    }
}

impl Clone for User {
    fn clone(&self) -> (copy: Self)
        ensures
            copy@ == self@,
    {
        User {
            name: self.name.clone(),
            pw_hash: self.pw_hash.clone(),
            access_level: self.access_level,
            session_id: self.session_id,
        }
    }
}

impl User {
    /// A user at `User` level with no session.
    pub fn new(name: &str, pw_hash: String) -> (user: Self)
        ensures
            user@ == (UserView {
                name: name@,
                pw_hash: pw_hash@,
                access_level: AccessLevel::User,
                session_id: None,
            }),
    {
        Self { name: name.to_owned(), pw_hash, access_level: AccessLevel::User, session_id: None }
    }

    /// The unique name of the user.
    pub fn name(&self) -> (name: &str)
        ensures
            name@ == self@.name,
    {
        self.name.as_str()
    }

    /// The password verifier of the user.
    pub fn pw_hash(&self) -> (pw_hash: &str)
        ensures
            pw_hash@ == self@.pw_hash,
    {
        self.pw_hash.as_str()
    }

    /// The access level of the user.
    pub fn access_level(&self) -> (level: &AccessLevel)
        ensures
            *level == self@.access_level,
    {
        &self.access_level
    }

    /// Sets the access level and leaves the rest alone.
    pub fn set_access_level(&mut self, access_level: AccessLevel)
        ensures
            final(self)@ == (UserView { access_level, ..old(self)@ }),
    {
        self.access_level = access_level;
    }

    /// The session that is authenticated as this user, if any.
    pub fn session_id(&self) -> (session_id: Option<u128>)
        ensures
            session_id == self@.session_id,
    {
        self.session_id
    }

    /// Binds the user to a session and leaves the rest alone.
    pub fn set_session_id(&mut self, session_id: u128)
        ensures
            final(self)@ == (UserView { session_id: Some(session_id), ..old(self)@ }),
    {
        self.session_id = Some(session_id);
    }

    /// Unbinds the user and leaves the rest alone.
    pub fn remove_session_id(&mut self)
        ensures
            final(self)@ == (UserView { session_id: None, ..old(self)@ }),
    {
        self.session_id = None;
    }
}

} // verus!
