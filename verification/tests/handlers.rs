use std::collections::HashMap;

use chat_core::directory::model::ShutdownSignal;
use chat_core::directory::shared_state::SharedState;
use chat_core::handles::admin::{
    broadcast, finish_server_shutdown, handle_server_shutdown, shutdown_timeout,
};
use chat_core::handles::auth::{
    handle_auth, handle_auth_create, login, register, AuthError, AuthReply,
};
use chat_core::handles::message::{handle_direct_message_send, not_connected};
use chat_core::handles::{handle_heartbeat, read_text, Delivery};
use chat_core::protocol::codec::ProtocolError;
use chat_core::protocol::kind::MessageType;
use chat_core::protocol::message::{Message, MessageBuilder};
use chat_core::server::{Next, SendStep, Server, HEARTBEAT_INTERVAL};
use chat_core::session::{AccessLevel, Session, Timestamp};
use chat_core::user::User;

fn directory_with(ids: &[u128]) -> SharedState {
    let mut state = SharedState::new();
    for id in ids {
        assert!(state.add_session(*id, Session::with_id(*id)));
    }
    state
}

fn ascending(mut ids: Vec<u128>) -> Vec<u128> {
    ids.sort();
    ids
}

fn text_of(message: &Message, index: usize) -> String {
    read_text(message, index).unwrap().to_string()
}

fn is_bare(message: &Message, kind: MessageType) -> bool {
    message.is(kind) && message.payload().len() == 0
}

fn is_failure(message: &Message, reason: &str) -> bool {
    message.is(MessageType::AuthFailure)
        && message.payload().len() == 1
        && text_of(message, 0) == reason
}

fn only(step_deliveries: Vec<Delivery>) -> Delivery {
    assert_eq!(step_deliveries.len(), 1);
    step_deliveries.into_iter().next().unwrap()
}

#[test]
fn reasons_are_worded_as_the_client_expects() {
    assert_eq!(AuthError::InvalidCredentials.as_str(), "Invalid username or password");
    assert_eq!(AuthError::AlreadyLoggedIn.as_str(), "User already logged in");
    assert_eq!(AuthError::UserExists.as_str(), "User already exists");
    assert!(is_bare(&AuthReply::Success.to_message(), MessageType::AuthSuccess));
    assert!(is_bare(&AuthReply::Refused.to_message(), MessageType::Nack));
    assert!(is_failure(
        &AuthReply::Failed(AuthError::UserExists).to_message(),
        "User already exists"
    ));
    assert_eq!(not_connected("bob"), "User bob is not connected");
}

#[test]
fn register_creates_the_user_and_binds_the_session() {
    let mut state = directory_with(&[1, 2]);
    assert_eq!(register(&mut state, 1, "alice", "hash".to_string()), AuthReply::Success);
    assert_eq!(state.get_user_by_session(1), Some("alice".to_string()));
    assert_eq!(state.get_access_level(1), AccessLevel::User);
    assert_eq!(state.get_user("alice").unwrap().pw_hash(), "hash");
    assert_eq!(
        register(&mut state, 2, "alice", "other".to_string()),
        AuthReply::Failed(AuthError::UserExists)
    );
    assert_eq!(state.get_user("alice").unwrap().pw_hash(), "hash");
    assert!(!state.is_authenticated(2));
    // an authenticated or unknown session is refused
    assert_eq!(register(&mut state, 1, "bob", "h".to_string()), AuthReply::Refused);
    assert_eq!(register(&mut state, 9, "bob", "h".to_string()), AuthReply::Refused);
    assert!(state.get_user("bob").is_none());
}

#[test]
fn login_follows_the_order_of_its_checks() {
    let mut state = directory_with(&[1, 2, 3]);
    assert!(state.add_user("alice".to_string(), User::new("alice", "h".to_string())));
    assert_eq!(
        login(&mut state, 1, "nobody", true),
        AuthReply::Failed(AuthError::InvalidCredentials)
    );
    assert_eq!(
        login(&mut state, 1, "alice", false),
        AuthReply::Failed(AuthError::InvalidCredentials)
    );
    assert!(!state.is_authenticated(1));
    assert_eq!(login(&mut state, 1, "alice", true), AuthReply::Success);
    assert_eq!(state.get_session_by_user("alice"), Some(1));
    // bound elsewhere: already logged in, whether or not the password matched
    assert_eq!(
        login(&mut state, 2, "alice", true),
        AuthReply::Failed(AuthError::AlreadyLoggedIn)
    );
    assert_eq!(
        login(&mut state, 2, "alice", false),
        AuthReply::Failed(AuthError::AlreadyLoggedIn)
    );
    // authenticated or unknown session: refused
    assert_eq!(login(&mut state, 1, "luffy", true), AuthReply::Refused);
    assert_eq!(login(&mut state, 9, "luffy", true), AuthReply::Refused);
    // once the session is gone the user can log in again
    state.close_session(1);
    assert_eq!(login(&mut state, 2, "alice", true), AuthReply::Success);
    assert_eq!(state.get_session_by_user("alice"), Some(2));
}

#[test]
fn auth_create_then_auth_with_the_real_hash() {
    let mut state = directory_with(&[1, 2, 3]);
    let reply = handle_auth_create(&Message::auth_create("alice", "pw"), &mut state, 1);
    assert!(is_bare(&reply, MessageType::AuthSuccess));
    assert_eq!(state.get_user_by_session(1), Some("alice".to_string()));
    assert_eq!(state.get_access_level(1), AccessLevel::User);
    let hash = state.get_user("alice").unwrap().pw_hash().to_string();
    assert!(hash.starts_with("$argon2id$v=19$m=19456,t=2,p=1$"));
    assert!(argon2::verify_encoded(&hash, b"pw").unwrap());
    assert!(!argon2::verify_encoded(&hash, b"pw2").unwrap());

    // already bound: "already logged in", even with the right password
    let reply = handle_auth(&Message::auth("alice", "pw"), &mut state, 2);
    assert!(is_failure(&reply, "User already logged in"));
    let reply = handle_auth(&Message::auth("alice", "wrong"), &mut state, 2);
    assert!(is_failure(&reply, "User already logged in"));

    state.close_session(1);
    let reply = handle_auth(&Message::auth("alice", "wrong"), &mut state, 2);
    assert!(is_failure(&reply, "Invalid username or password"));
    assert!(!state.is_authenticated(2));
    let reply = handle_auth(&Message::auth("nobody", "pw"), &mut state, 2);
    assert!(is_failure(&reply, "Invalid username or password"));
    let reply = handle_auth(&Message::auth("alice", "pw"), &mut state, 2);
    assert!(is_bare(&reply, MessageType::AuthSuccess));
    assert_eq!(state.get_session_by_user("alice"), Some(2));

    // an authenticated session asking again is refused
    let reply = handle_auth(&Message::auth("alice", "pw"), &mut state, 2);
    assert!(is_bare(&reply, MessageType::Nack));
    let reply = handle_auth_create(&Message::auth_create("bob", "pw"), &mut state, 2);
    assert!(is_bare(&reply, MessageType::Nack));
    assert!(state.get_user("bob").is_none());
}

#[test]
fn each_user_gets_a_salt_of_its_own() {
    let mut state = directory_with(&[1, 2]);
    handle_auth_create(&Message::auth_create("alice", "same"), &mut state, 1);
    handle_auth_create(&Message::auth_create("bob", "same"), &mut state, 2);
    let alice = state.get_user("alice").unwrap().pw_hash().to_string();
    let bob = state.get_user("bob").unwrap().pw_hash().to_string();
    assert_ne!(alice, bob);
    let salt_of = |hash: &str| hash.split('$').nth(4).unwrap().to_string();
    assert_ne!(salt_of(&alice), salt_of(&bob));
    // sixteen bytes in unpadded base64
    assert_eq!(salt_of(&alice).len(), 22);
}

#[test]
fn a_second_registration_fails_with_user_exists() {
    let mut state = directory_with(&[1, 2]);
    let reply = handle_auth_create(&Message::auth_create("alice", "pw"), &mut state, 1);
    assert!(is_bare(&reply, MessageType::AuthSuccess));
    let reply = handle_auth_create(&Message::auth_create("alice", "anything"), &mut state, 2);
    assert!(is_failure(&reply, "User already exists"));
    assert!(!state.is_authenticated(2));
    let reply = handle_auth_create(&Message::auth_create("luffy", "pw"), &mut state, 2);
    assert!(is_failure(&reply, "User already exists"));
}

#[test]
fn frames_that_lack_what_they_promise() {
    let mut state = directory_with(&[1]);
    let one_field = MessageBuilder::new(MessageType::Auth).with_field(b"alice".to_vec()).build();
    assert!(is_bare(&handle_auth(&one_field, &mut state, 1), MessageType::Nack));
    let one_field =
        MessageBuilder::new(MessageType::AuthCreate).with_field(b"alice".to_vec()).build();
    assert!(is_bare(&handle_auth_create(&one_field, &mut state, 1), MessageType::Nack));
    let not_text = MessageBuilder::new(MessageType::Auth)
        .with_field(vec![0xff, 0xfe])
        .with_field(b"pw".to_vec())
        .build();
    assert!(is_failure(
        &handle_auth(&not_text, &mut state, 1),
        "Invalid username or password"
    ));
    let not_text = MessageBuilder::new(MessageType::AuthCreate)
        .with_field(vec![0xc3, 0x28])
        .with_field(b"pw".to_vec())
        .build();
    assert!(is_bare(&handle_auth_create(&not_text, &mut state, 1), MessageType::Nack));
    assert_eq!(ascending(state.sessions()), vec![1]);
    assert!(!state.is_authenticated(1));
    assert!(read_text(&not_text, 0).is_none());
    assert!(read_text(&not_text, 2).is_none());
    assert_eq!(read_text(&not_text, 1), Some("pw"));
}

#[test]
fn a_password_need_not_be_text() {
    let mut state = directory_with(&[1, 2]);
    let create = MessageBuilder::new(MessageType::AuthCreate)
        .with_field("zoë".as_bytes().to_vec())
        .with_field(vec![0x00, 0xff, 0x80])
        .build();
    assert!(is_bare(&handle_auth_create(&create, &mut state, 1), MessageType::AuthSuccess));
    assert_eq!(state.get_user_by_session(1), Some("zoë".to_string()));
    state.close_session(1);
    let auth = MessageBuilder::new(MessageType::Auth)
        .with_field("zoë".as_bytes().to_vec())
        .with_field(vec![0x00, 0xff, 0x80])
        .build();
    assert!(is_bare(&handle_auth(&auth, &mut state, 2), MessageType::AuthSuccess));
}

#[test]
fn a_stored_verifier_that_cannot_be_read_matches_nothing() {
    let mut state = directory_with(&[1]);
    assert!(state.add_user("alice".to_string(), User::new("alice", "not a hash".to_string())));
    let reply = handle_auth(&Message::auth("alice", "pw"), &mut state, 1);
    assert!(is_failure(&reply, "Invalid username or password"));
}

#[test]
fn heartbeat_records_the_instant_in_the_frame() {
    let mut state = directory_with(&[1]);
    handle_heartbeat(&Message::heartbeat_at("1996-12-19T16:39:57-08:00"), &mut state, 1);
    assert_eq!(
        state.get_session(1).unwrap().last_heartbeat(),
        Some(Timestamp { seconds: 851_042_397, nanos: 0 })
    );
    handle_heartbeat(&Message::heartbeat_at("2024-02-29T12:00:00.5Z"), &mut state, 1);
    assert_eq!(
        state.get_session(1).unwrap().last_heartbeat(),
        Some(Timestamp { seconds: 1_709_208_000, nanos: 500_000_000 })
    );
    // what is no timestamp changes nothing
    handle_heartbeat(&Message::heartbeat_at("yesterday"), &mut state, 1);
    handle_heartbeat(&Message::ack(), &mut state, 1);
    assert_eq!(
        state.get_session(1).unwrap().last_heartbeat(),
        Some(Timestamp { seconds: 1_709_208_000, nanos: 500_000_000 })
    );
}

#[test]
fn direct_message_goes_to_the_recipient_or_back_with_a_reason() {
    let mut state = directory_with(&[1, 2]);
    assert_eq!(register(&mut state, 1, "alice", "h".to_string()), AuthReply::Success);
    let frame = Message::direct_message_send("bob", "hi");

    let delivery = handle_direct_message_send(&frame, &state, 1);
    assert_eq!(delivery.to, 1);
    assert!(delivery.message.is(MessageType::MessageError));
    assert_eq!(text_of(&delivery.message, 0), "User bob is not connected");

    assert_eq!(register(&mut state, 2, "bob", "h".to_string()), AuthReply::Success);
    let delivery = handle_direct_message_send(&frame, &state, 1);
    assert_eq!(delivery.to, 2);
    assert!(delivery.message.is(MessageType::DirectMessageReceive));
    assert_eq!(
        delivery.message.payload().get_data(),
        vec![b"alice".to_vec(), b"hi".to_vec()]
    );

    // a registered user without a session is not connected
    state.close_session(2);
    let delivery = handle_direct_message_send(&frame, &state, 1);
    assert_eq!(delivery.to, 1);
    assert!(delivery.message.is(MessageType::MessageError));
}

#[test]
fn direct_message_needs_an_identity_and_two_texts() {
    let mut state = directory_with(&[1, 2]);
    let frame = Message::direct_message_send("luffy", "hi");
    let delivery = handle_direct_message_send(&frame, &state, 1);
    assert_eq!(delivery.to, 1);
    assert!(is_bare(&delivery.message, MessageType::Nack));
    state.authenticate(1, "luffy".to_string());
    let short = MessageBuilder::new(MessageType::DirectMessageSend).with_field(b"bob".to_vec()).build();
    assert!(is_bare(&handle_direct_message_send(&short, &state, 1).message, MessageType::Nack));
    let not_text = MessageBuilder::new(MessageType::DirectMessageSend)
        .with_field(b"luffy".to_vec())
        .with_field(vec![0xff])
        .build();
    assert!(is_bare(&handle_direct_message_send(&not_text, &state, 1).message, MessageType::Nack));
    // to oneself
    let delivery = handle_direct_message_send(&frame, &state, 1);
    assert_eq!(delivery.to, 1);
    assert!(delivery.message.is(MessageType::DirectMessageReceive));
}

#[test]
fn shutdown_timeout_is_eight_big_endian_bytes() {
    assert_eq!(shutdown_timeout(&Message::server_shutdown(1)), Some(1));
    assert_eq!(shutdown_timeout(&Message::server_shutdown(u64::MAX)), Some(u64::MAX));
    assert_eq!(
        shutdown_timeout(&Message::server_shutdown_warning(0x0102_0304_0506_0708)),
        Some(0x0102_0304_0506_0708)
    );
    assert_eq!(shutdown_timeout(&Message::ack()), None);
    let seven = MessageBuilder::new(MessageType::ServerShutdown).with_field(vec![0; 7]).build();
    assert_eq!(shutdown_timeout(&seven), None);
    let nine = MessageBuilder::new(MessageType::ServerShutdown).with_field(vec![0; 9]).build();
    assert_eq!(shutdown_timeout(&nine), None);
}

#[test]
fn broadcast_reaches_every_session_once() {
    let state = directory_with(&[3, 1, 2]);
    let deliveries = broadcast(&state, &Message::disconnect());
    let targets: Vec<u128> = deliveries.iter().map(|d| d.to).collect();
    assert_eq!(ascending(targets), vec![1, 2, 3]);
    assert!(deliveries.iter().all(|d| is_bare(&d.message, MessageType::Disconnect)));
    assert!(broadcast(&SharedState::new(), &Message::disconnect()).is_empty());
}

#[test]
fn shutdown_warns_then_disconnects_then_signals() {
    let mut state = directory_with(&[1, 2, 3]);
    Server::new().serve(&mut state);
    let (timeout, warnings) = handle_server_shutdown(&Message::server_shutdown(1), &state).unwrap();
    assert_eq!(timeout, 1);
    assert_eq!(ascending(warnings.iter().map(|d| d.to).collect()), vec![1, 2, 3]);
    for warning in &warnings {
        assert!(warning.message.is(MessageType::ServerShutdownWarning));
        assert_eq!(shutdown_timeout(&warning.message), Some(1));
    }
    state.close_session(2);
    let (disconnects, notify) = finish_server_shutdown(&mut state);
    assert_eq!(ascending(disconnects.iter().map(|d| d.to).collect()), vec![1, 3]);
    assert!(disconnects.iter().all(|d| is_bare(&d.message, MessageType::Disconnect)));
    assert!(notify);
    assert_eq!(state.shutdown_signal(), ShutdownSignal::Triggered);
    let (_, again) = finish_server_shutdown(&mut state);
    assert!(!again);
    assert!(handle_server_shutdown(&Message::ack(), &state).is_none());
}

#[test]
fn accepting_registers_a_fresh_guest_with_a_first_heartbeat() {
    let mut state = SharedState::new();
    let a = Server::handle_connection(&mut state).unwrap();
    let b = Server::handle_connection(&mut state).unwrap();
    assert_ne!(a, b);
    assert_eq!(ascending(state.sessions()), ascending(vec![a, b]));
    let session = state.get_session(a).unwrap();
    assert_eq!(session.user(), None);
    assert_eq!(*session.access_level(), AccessLevel::Guest);
    assert!(!session.is_closed());
    assert!(session.last_heartbeat().unwrap().seconds > 1_600_000_000);
    assert_eq!(HEARTBEAT_INTERVAL, 30);
    assert!(Server::accepting(&state));
}

#[test]
fn the_first_connection_always_gets_a_session() {
    for _ in 0..32 {
        let mut state = SharedState::new();
        let id = Server::handle_connection(&mut state).unwrap();
        assert_eq!(state.sessions(), vec![id]);
    }
}

#[test]
fn a_session_opens_under_a_free_identifier_while_the_server_is_open() {
    let mut state = SharedState::new();
    let now = Timestamp { seconds: 10, nanos: 20 };
    assert!(Server::open_session(&mut state, 4, now));
    assert!(!Server::open_session(&mut state, 4, now));
    assert!(Server::open_session(&mut state, 5, now));
    assert_eq!(ascending(state.sessions()), vec![4, 5]);
    assert_eq!(state.get_session(4).unwrap().last_heartbeat(), Some(now));
    Server::new().serve(&mut state);
    assert!(state.trigger_shutdown());
    assert!(!Server::open_session(&mut state, 6, now));
    assert_eq!(ascending(state.sessions()), vec![4, 5]);
}

#[test]
fn a_frame_the_level_does_not_allow_is_answered_with_nack() {
    let mut state = directory_with(&[1]);
    for frame in [
        Message::direct_message_send("luffy", "hi"),
        Message::server_shutdown(1),
        Message::server_debug_log(),
        Message::ack(),
        Message::break_sentinel(),
        Message::auth_success(),
    ] {
        let step = Server::handle_receive(&mut state, 1, Ok(frame));
        assert_eq!(step.next, Next::Continue);
        let delivery = only(step.deliveries);
        assert_eq!(delivery.to, 1);
        assert!(is_bare(&delivery.message, MessageType::Nack));
    }
    assert!(state.is_active_session(1));
    assert_eq!(state.shutdown_signal(), ShutdownSignal::Unset);
}

#[test]
fn disconnect_and_read_failures_wind_the_connection_down() {
    let mut state = directory_with(&[1]);
    let step = Server::handle_receive(&mut state, 1, Ok(Message::disconnect()));
    assert_eq!(step.next, Next::Stop);
    let delivery = only(step.deliveries);
    assert_eq!(delivery.to, 1);
    assert!(is_bare(&delivery.message, MessageType::Break));
    for error in
        [ProtocolError::Truncated, ProtocolError::VersionMismatch, ProtocolError::ChecksumMismatch]
    {
        let step = Server::handle_receive(&mut state, 1, Err(error));
        assert_eq!(step.next, Next::Stop);
        assert!(is_bare(&only(step.deliveries).message, MessageType::Break));
    }
    // the session is torn down by the send task, not by the receive task
    assert!(state.is_active_session(1));
}

#[test]
fn the_sentinel_is_never_written() {
    let mut state = directory_with(&[1]);
    state.authenticate(1, "luffy".to_string());
    match Server::handle_send(&mut state, 1, Some(&Message::ack())) {
        SendStep::Write(bytes) => assert_eq!(bytes, Message::ack().encode()),
        SendStep::Stop => panic!("an ordinary message is written"),
    }
    assert!(state.is_active_session(1));
    assert!(matches!(
        Server::handle_send(&mut state, 1, Some(&Message::break_sentinel())),
        SendStep::Stop
    ));
    assert!(!state.is_active_session(1));
    assert_eq!(state.get_user("luffy").unwrap().session_id(), None);
}

#[test]
fn a_closed_queue_tears_the_session_down() {
    let mut state = directory_with(&[1, 2]);
    assert!(matches!(Server::handle_send(&mut state, 1, None), SendStep::Stop));
    assert!(!state.is_active_session(1));
    assert!(state.is_active_session(2));
}

#[test]
fn a_failed_write_or_a_sent_disconnect_tears_the_session_down() {
    let mut state = directory_with(&[1, 2, 3]);
    assert!(Server::after_send(&mut state, 1, &Message::ack(), true));
    assert!(state.is_active_session(1));
    assert!(!Server::after_send(&mut state, 1, &Message::ack(), false));
    assert!(!state.is_active_session(1));
    assert!(!Server::after_send(&mut state, 2, &Message::disconnect(), true));
    assert!(!state.is_active_session(2));
    Server::handle_disconnect(&mut state, 3);
    Server::handle_disconnect(&mut state, 3);
    assert!(state.sessions().is_empty());
}

#[test]
fn the_heartbeat_tick_gives_a_heartbeat() {
    let message = Server::handle_heartbeat();
    assert!(message.is(MessageType::Heartbeat));
    assert_eq!(message.payload().len(), 1);
    let text = text_of(&message, 0);
    assert!(text.len() >= 25 && text.len() <= 42);
    assert!(chrono::DateTime::parse_from_rfc3339(&text).unwrap().timestamp() > 1_600_000_000);
    assert_eq!(message.checksum(), message.checksum_of_fields());
}

#[test]
fn debug_log_is_for_administrators() {
    let mut state = directory_with(&[1]);
    state.authenticate(1, "luffy".to_string());
    let step = Server::handle_receive(&mut state, 1, Ok(Message::server_debug_log()));
    assert_eq!(step.next, Next::DebugLog);
    assert!(step.deliveries.is_empty());
}

#[test]
fn end_to_end() {
    let mut state = SharedState::new();
    Server::new().serve(&mut state);
    let secret = argon2::hash_encoded(b"secret", b"somesalt", &argon2::Config::default()).unwrap();
    let mut root = User::new("root", secret);
    root.set_access_level(AccessLevel::Admin);
    assert!(state.add_user("root".to_string(), root));

    let mut queues: HashMap<u128, Vec<Message>> = HashMap::new();
    let mut connect = |state: &mut SharedState, queues: &mut HashMap<u128, Vec<Message>>| {
        let id = Server::handle_connection(state).unwrap();
        queues.insert(id, Vec::new());
        id
    };
    let a = connect(&mut state, &mut queues);
    let b = connect(&mut state, &mut queues);
    let c = connect(&mut state, &mut queues);
    let d = connect(&mut state, &mut queues);

    // what a frame does, by way of the wire
    let mut send = |state: &mut SharedState,
                    queues: &mut HashMap<u128, Vec<Message>>,
                    from: u128,
                    message: Message|
     -> Next {
        let bytes = message.encode();
        assert!(Message::has_header_start(&bytes[..2]));
        let received = Message::decode(&bytes[2..]).map(|(message, _)| message);
        let step = Server::handle_receive(state, from, received);
        for delivery in step.deliveries {
            queues.get_mut(&delivery.to).unwrap().push(delivery.message);
        }
        step.next
    };

    // (1) A registers
    assert_eq!(send(&mut state, &mut queues, a, Message::auth_create("alice", "pw")), Next::Continue);
    assert!(is_bare(&queues.get_mut(&a).unwrap().remove(0), MessageType::AuthSuccess));
    assert_eq!(state.get_access_level(a), AccessLevel::User);

    // (2) B tries the same name
    send(&mut state, &mut queues, b, Message::auth_create("alice", "pw2"));
    assert!(is_failure(&queues.get_mut(&b).unwrap().remove(0), "User already exists"));

    // (3) A writes to bob, who is not connected
    send(&mut state, &mut queues, a, Message::direct_message_send("bob", "hi"));
    let reply = queues.get_mut(&a).unwrap().remove(0);
    assert!(reply.is(MessageType::MessageError));
    assert!(text_of(&reply, 0).contains("bob"));

    // (4) C becomes bob; A writes again
    send(&mut state, &mut queues, c, Message::auth_create("bob", "pw"));
    assert!(is_bare(&queues.get_mut(&c).unwrap().remove(0), MessageType::AuthSuccess));
    send(&mut state, &mut queues, a, Message::direct_message_send("bob", "hi"));
    let received = queues.get_mut(&c).unwrap().remove(0);
    assert!(received.is(MessageType::DirectMessageReceive));
    assert_eq!(received.payload().get_data(), vec![b"alice".to_vec(), b"hi".to_vec()]);
    assert!(queues[&a].is_empty());

    // (5) an administrator shuts the server down
    send(&mut state, &mut queues, d, Message::auth("root", "secret"));
    assert!(is_bare(&queues.get_mut(&d).unwrap().remove(0), MessageType::AuthSuccess));
    assert_eq!(state.get_access_level(d), AccessLevel::Admin);
    assert_eq!(send(&mut state, &mut queues, d, Message::server_shutdown(1)), Next::Shutdown(1));
    for id in [a, b, c, d] {
        let warning = queues.get_mut(&id).unwrap().remove(0);
        assert!(warning.is(MessageType::ServerShutdownWarning));
        assert_eq!(shutdown_timeout(&warning), Some(1));
        assert!(queues[&id].is_empty());
    }
    let (disconnects, notify) = finish_server_shutdown(&mut state);
    assert!(notify);
    assert_eq!(state.shutdown_signal(), ShutdownSignal::Triggered);
    for delivery in disconnects {
        queues.get_mut(&delivery.to).unwrap().push(delivery.message);
    }
    for id in [a, b, c, d] {
        let message = queues.get_mut(&id).unwrap().remove(0);
        assert!(is_bare(&message, MessageType::Disconnect));
        // the send task writes it and then tears the session down
        match Server::handle_send(&mut state, id, Some(&message)) {
            SendStep::Write(bytes) => assert_eq!(bytes, Message::disconnect().encode()),
            SendStep::Stop => panic!("a disconnect is written"),
        }
        assert!(!Server::after_send(&mut state, id, &message, true));
        assert!(!state.is_active_session(id));
    }
    assert!(state.sessions().is_empty());
    assert_eq!(state.get_user("alice").unwrap().session_id(), None);
    assert_eq!(state.get_user("bob").unwrap().session_id(), None);
    assert_eq!(state.get_user("root").unwrap().session_id(), None);
    // and no new connection is taken
    assert!(!Server::accepting(&state));
    assert_eq!(Server::handle_connection(&mut state), None);
    assert!(state.sessions().is_empty());
}
