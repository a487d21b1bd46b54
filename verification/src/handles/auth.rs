//! Login and registration.

use vstd::prelude::*;
use vstd::string::StringSliceAdditionalSpecFns;
use vstd::utf8::encode_utf8;
use crate::bytes::u128_to_be_bytes;
use crate::directory::model::{lemma_add_user_wf, lemma_authenticate_wf, DirectoryView};
use crate::directory::shared_state::SharedState;
use crate::handles::{field_text, read_text};
use crate::primitives::{argon2_encoded, argon2_hash, argon2_verdict, argon2_verify, random_u128};
use crate::protocol::kind::MessageType;
use crate::protocol::message::{sealed, Message, MessageView};
use crate::session::AccessLevel;
use crate::text::lemma_utf8_len_bound;
use crate::user::{User, UserView};

verus! {

/// Why authentication failed.
#[derive(Debug, Clone, Copy, PartialEq, Eq, Structural)]
pub enum AuthError {
    InvalidCredentials,
    AlreadyLoggedIn,
    UserExists,
}

impl AuthError {
    /// The reason as the client reads it.
    pub open spec fn reason(self) -> Seq<char> {
        match self {
            AuthError::InvalidCredentials => "Invalid username or password"@,
            AuthError::AlreadyLoggedIn => "User already logged in"@,
            AuthError::UserExists => "User already exists"@,
        }
    }

    /// The reason as the client reads it.
    pub fn as_str(&self) -> (text: &'static str)
        ensures
            text@ == self.reason(),
            text.spec_bytes().len() <= 112,
    {
        proof {
            reveal_strlit("Invalid username or password");
            reveal_strlit("User already logged in");
            reveal_strlit("User already exists");
            lemma_utf8_len_bound(self.reason());
        }
        match self {
            AuthError::InvalidCredentials => "Invalid username or password",
            AuthError::AlreadyLoggedIn => "User already logged in",
            AuthError::UserExists => "User already exists",
        }
    }
}

/// The answer to a login or registration request.
#[derive(Debug, Clone, Copy, PartialEq, Eq, Structural)]
pub enum AuthReply {
    /// The session is now authenticated.
    Success,
    /// The request was not looked at: the session is already authenticated
    /// or is not in the directory, or the frame lacks a field.
    Refused,
    /// The request was turned down for the given reason.
    Failed(AuthError),
}

impl AuthReply {
    /// The frame that carries the answer.
    pub open spec fn message(self) -> MessageView {
        match self {
            AuthReply::Success => sealed(MessageType::AuthSuccess, Seq::empty()),
            AuthReply::Refused => sealed(MessageType::Nack, Seq::empty()),
            AuthReply::Failed(e) => sealed(
                MessageType::AuthFailure,
                seq![encode_utf8(e.reason())],
            ),
        }
    }

    /// The frame that carries the answer.
    pub fn to_message(&self) -> (message: Message)
        ensures
            message@ == self.message(),
    {
        match self {
            AuthReply::Success => Message::auth_success(),
            AuthReply::Refused => Message::nack(),
            AuthReply::Failed(e) => Message::auth_fail(e.as_str()),
        }
    }
}

/// What a login attempt comes to, given whether the password matched. A
/// session that is not in the directory or is already authenticated is
/// refused. An unknown user fails as bad credentials. A user who already has
/// a session fails as already logged in, whatever the password. Then a wrong
/// password fails as bad credentials, and a right one binds the session to
/// the user.
pub open spec fn login_spec(
    dir: DirectoryView,
    id: u128,
    name: Seq<char>,
    password_matches: bool,
) -> (AuthReply, DirectoryView) {
    if !dir.is_active(id) || dir.is_authenticated(id) {
        (AuthReply::Refused, dir)
    } else if !dir.users.contains_key(name) {
        (AuthReply::Failed(AuthError::InvalidCredentials), dir)
    } else if dir.users[name].session_id is Some {
        (AuthReply::Failed(AuthError::AlreadyLoggedIn), dir)
    } else if !password_matches {
        (AuthReply::Failed(AuthError::InvalidCredentials), dir)
    } else {
        (AuthReply::Success, dir.bind(id, name))
    }
}

/// What a registration comes to, given the password verifier to store. A
/// session that is not in the directory or is already authenticated is
/// refused. A name that is taken fails. Otherwise the user is created at
/// `User` level and the session is bound to it.
pub open spec fn register_spec(
    dir: DirectoryView,
    id: u128,
    name: Seq<char>,
    pw_hash: Seq<char>,
) -> (AuthReply, DirectoryView) {
    if !dir.is_active(id) || dir.is_authenticated(id) {
        (AuthReply::Refused, dir)
    } else if dir.users.contains_key(name) {
        (AuthReply::Failed(AuthError::UserExists), dir)
    } else {
        (
            AuthReply::Success,
            dir.add_user(
                UserView { name, pw_hash, access_level: AccessLevel::User, session_id: None },
            ).bind(id, name),
        )
    }
}

/// What an `Auth` frame comes to. The first field is the username, the second
/// the password. A frame with fewer than two fields is refused; a username
/// that is no text names no user.
pub open spec fn auth_spec(dir: DirectoryView, id: u128, fields: Seq<Seq<u8>>) -> (
    AuthReply,
    DirectoryView,
) {
    if !dir.is_active(id) || dir.is_authenticated(id) || fields.len() < 2 {
        (AuthReply::Refused, dir)
    } else {
        match field_text(fields, 0) {
            None => (AuthReply::Failed(AuthError::InvalidCredentials), dir),
            Some(name) => login_spec(
                dir,
                id,
                name,
                dir.users.contains_key(name) && argon2_verdict(dir.users[name].pw_hash, fields[1])
                    == Some(true),
            ),
        }
    }
}

/// What an `AuthCreate` frame comes to under a given salt. The first field is
/// the username, the second the password. A frame with fewer than two fields
/// or with a username that is no text is refused.
pub open spec fn auth_create_spec(
    dir: DirectoryView,
    id: u128,
    fields: Seq<Seq<u8>>,
    salt: Seq<u8>,
) -> (AuthReply, DirectoryView) {
    if !dir.is_active(id) || dir.is_authenticated(id) || fields.len() < 2 {
        (AuthReply::Refused, dir)
    } else {
        match field_text(fields, 0) {
            None => (AuthReply::Refused, dir),
            Some(name) => register_spec(dir, id, name, argon2_encoded(fields[1], salt)),
        }
    }
}

/// Registration under a name that the directory does not know, by a session
/// that is in the directory and not yet authenticated, always succeeds: the
/// user exists afterwards, and the session is authenticated as that user at
/// `User` level. Every later registration under the same name, by a session
/// that could register, fails because the user exists, and changes nothing.
pub proof fn lemma_register_once(
    dir: DirectoryView,
    id: u128,
    name: Seq<char>,
    pw_hash: Seq<char>,
    later: u128,
    later_hash: Seq<char>,
)
    requires
        dir.wf(),
        dir.is_active(id),
        !dir.is_authenticated(id),
        !dir.users.contains_key(name),
    ensures
        register_spec(dir, id, name, pw_hash).0 == AuthReply::Success,
        register_spec(dir, id, name, pw_hash).1.wf(),
        register_spec(dir, id, name, pw_hash).1.username_of(id) == Some(name),
        register_spec(dir, id, name, pw_hash).1.session_of(name) == Some(id),
        register_spec(dir, id, name, pw_hash).1.access_level(id) == AccessLevel::User,
        register_spec(dir, id, name, pw_hash).1.users[name].pw_hash == pw_hash,
        register_spec(dir, id, name, pw_hash).1.is_active(later) && !register_spec(
            dir,
            id,
            name,
            pw_hash,
        ).1.is_authenticated(later) ==> register_spec(
            register_spec(dir, id, name, pw_hash).1,
            later,
            name,
            later_hash,
        ) == (AuthReply::Failed(AuthError::UserExists), register_spec(dir, id, name, pw_hash).1),
{
    let user = UserView { name, pw_hash, access_level: AccessLevel::User, session_id: None };
    lemma_add_user_wf(dir, user);
    lemma_authenticate_wf(dir.add_user(user), id, name);
    assert(dir.add_user(user).can_bind(id, name));
}

/// The same for frames: an `AuthCreate` frame with a username that the
/// directory does not know succeeds whatever the salt, and a later frame with
/// the same username fails because the user exists.
pub proof fn lemma_auth_create_once(
    dir: DirectoryView,
    id: u128,
    fields: Seq<Seq<u8>>,
    salt: Seq<u8>,
    later: u128,
    later_fields: Seq<Seq<u8>>,
    later_salt: Seq<u8>,
)
    requires
        dir.wf(),
        dir.is_active(id),
        !dir.is_authenticated(id),
        fields.len() >= 2,
        field_text(fields, 0) is Some,
        !dir.users.contains_key(field_text(fields, 0)->0),
        later_fields.len() >= 2,
        field_text(later_fields, 0) == field_text(fields, 0),
    ensures
        auth_create_spec(dir, id, fields, salt).0 == AuthReply::Success,
        auth_create_spec(dir, id, fields, salt).1.wf(),
        auth_create_spec(dir, id, fields, salt).1.username_of(id) == field_text(fields, 0),
        auth_create_spec(dir, id, fields, salt).1.access_level(id) == AccessLevel::User,
        auth_create_spec(dir, id, fields, salt).1.is_active(later) && !auth_create_spec(
            dir,
            id,
            fields,
            salt,
        ).1.is_authenticated(later) ==> auth_create_spec(
            auth_create_spec(dir, id, fields, salt).1,
            later,
            later_fields,
            later_salt,
        ) == (AuthReply::Failed(AuthError::UserExists), auth_create_spec(dir, id, fields, salt).1),
{
    lemma_register_once(
        dir,
        id,
        field_text(fields, 0)->0,
        argon2_encoded(fields[1], salt),
        later,
        argon2_encoded(later_fields[1], later_salt),
    );
}

/// A login succeeds only if the user has no session and the password
/// matched. If the user already has a session, the login of another session
/// fails as already logged in, whether or not the password matched.
pub proof fn lemma_login_needs_free_user(
    dir: DirectoryView,
    id: u128,
    name: Seq<char>,
    password_matches: bool,
)
    ensures
        login_spec(dir, id, name, password_matches).0 == AuthReply::Success ==> dir.session_of(name) is None
            && dir.users.contains_key(name) && password_matches && dir.is_active(id)
            && !dir.is_authenticated(id),
        dir.is_active(id) && !dir.is_authenticated(id) && dir.session_of(name) is Some
            ==> login_spec(dir, id, name, password_matches) == (
            AuthReply::Failed(AuthError::AlreadyLoggedIn),
            dir,
        ),
        dir.is_active(id) && !dir.is_authenticated(id) && dir.users.contains_key(name)
            && dir.session_of(name) is None && password_matches ==> login_spec(
            dir,
            id,
            name,
            password_matches,
        ) == (AuthReply::Success, dir.bind(id, name)),
{
}

/// The same for frames: an `Auth` frame succeeds only if the user it names
/// has no session and the password in it matches the stored verifier; if the
/// user already has a session, the frame fails as already logged in whatever
/// the password.
pub proof fn lemma_auth_needs_free_user(dir: DirectoryView, id: u128, fields: Seq<Seq<u8>>)
    ensures
        auth_spec(dir, id, fields).0 == AuthReply::Success ==> field_text(fields, 0) is Some
            && dir.session_of(field_text(fields, 0)->0) is None && argon2_verdict(
            dir.users[field_text(fields, 0)->0].pw_hash,
            fields[1],
        ) == Some(true),
        dir.is_active(id) && !dir.is_authenticated(id) && fields.len() >= 2 && field_text(fields, 0) is Some
            && dir.session_of(field_text(fields, 0)->0) is Some ==> auth_spec(dir, id, fields) == (
            AuthReply::Failed(AuthError::AlreadyLoggedIn),
            dir,
        ),
{
}

/// Concludes a login attempt once the password has been judged.
pub fn login(state: &mut SharedState, session_id: u128, username: &str, password_matches: bool) -> (reply:
    AuthReply)
    requires
        old(state).wf(),
    ensures
        final(state).wf(),
        (reply, final(state)@) == login_spec(
            old(state)@,
            session_id,
            username@,
            password_matches,
        ),
{
    if !state.is_active_session(session_id) || state.is_authenticated(session_id) {
        return AuthReply::Refused;
    }
    let bound = match state.get_user(username) {
        None => {
            return AuthReply::Failed(AuthError::InvalidCredentials);
        },
        Some(user) => user.session_id().is_some(),
    };
    if bound {
        return AuthReply::Failed(AuthError::AlreadyLoggedIn);
    }
    if !password_matches {
        return AuthReply::Failed(AuthError::InvalidCredentials);
    }
    state.authenticate(session_id, username.to_owned());
    AuthReply::Success
}

/// Concludes a registration once the password has been hashed.
pub fn register(state: &mut SharedState, session_id: u128, username: &str, pw_hash: String) -> (reply:
    AuthReply)
    requires
        old(state).wf(),
    ensures
        final(state).wf(),
        (reply, final(state)@) == register_spec(old(state)@, session_id, username@, pw_hash@),
{
    if !state.is_active_session(session_id) || state.is_authenticated(session_id) {
        return AuthReply::Refused;
    }
    if state.get_user(username).is_some() {
        return AuthReply::Failed(AuthError::UserExists);
    }
    let user = User::new(username, pw_hash);
    let added = state.add_user(username.to_owned(), user);
    assert(added);
    state.authenticate(session_id, username.to_owned());
    AuthReply::Success
}

/// Handles an `Auth` frame: looks the user up, has the password judged
/// against the stored verifier and concludes the login.
pub fn handle_auth(message: &Message, state: &mut SharedState, session_id: u128) -> (reply: Message)
    requires
        old(state).wf(),
    ensures
        final(state).wf(),
        reply@ == auth_spec(old(state)@, session_id, message@.fields).0.message(),
        final(state)@ == auth_spec(old(state)@, session_id, message@.fields).1,
{
    if !state.is_active_session(session_id) || state.is_authenticated(session_id)
        || message.payload().len() < 2 {
        return AuthReply::Refused.to_message();
    }
    let username = match read_text(message, 0) {
        None => {
            return AuthReply::Failed(AuthError::InvalidCredentials).to_message();
        },
        Some(username) => username,
    };
    let password_matches = match state.get_user(username) {
        None => false,
        Some(user) => {
            if user.session_id().is_some() {
                false
            } else {
                match argon2_verify(user.pw_hash(), message.payload().field(1)) {
                    Ok(matches) => matches,
                    Err(_) => false,
                }
            }
        },
    };
    login(state, session_id, username, password_matches).to_message()
}

/// Handles an `AuthCreate` frame: hashes the password under a fresh random
/// salt of sixteen bytes and concludes the registration. The salt is drawn
/// only where a user is in fact created.
pub fn handle_auth_create(message: &Message, state: &mut SharedState, session_id: u128) -> (reply:
    Message)
    requires
        old(state).wf(),
    ensures
        final(state).wf(),
        exists|salt: Seq<u8>|
            salt.len() == 16 && reply@ == (#[trigger] auth_create_spec(
                old(state)@,
                session_id,
                message@.fields,
                salt,
            )).0.message() && final(state)@ == auth_create_spec(
                old(state)@,
                session_id,
                message@.fields,
                salt,
            ).1,
{
    let ghost any_salt = Seq::new(16, |i: int| 0u8);
    if !state.is_active_session(session_id) || state.is_authenticated(session_id)
        || message.payload().len() < 2 {
        let reply = AuthReply::Refused.to_message();
        assert(reply@ == auth_create_spec(old(state)@, session_id, message@.fields, any_salt).0.message());
        return reply;
    }
    let username = match read_text(message, 0) {
        None => {
            let reply = AuthReply::Refused.to_message();
            assert(reply@ == auth_create_spec(
                old(state)@,
                session_id,
                message@.fields,
                any_salt,
            ).0.message());
            return reply;
        },
        Some(username) => username,
    };
    if state.get_user(username).is_some() {
        let reply = AuthReply::Failed(AuthError::UserExists).to_message();
        assert(reply@ == auth_create_spec(old(state)@, session_id, message@.fields, any_salt).0.message());
        return reply;
    }
    let salt = u128_to_be_bytes(random_u128());
    let password = message.payload().field(1);
    match argon2_hash(password, salt.as_slice()) {
        Ok(pw_hash) => {
            let reply = register(state, session_id, username, pw_hash).to_message();
            assert(reply@ == auth_create_spec(old(state)@, session_id, message@.fields, salt@).0.message());
            reply
        },
        Err(_) => {
            let reply = AuthReply::Refused.to_message();
            assert(reply@ == auth_create_spec(old(state)@, session_id, message@.fields, any_salt).0.message());
            reply
        },
    }
}

} // verus!
