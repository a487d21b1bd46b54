use chat_core::client::{after_send, handle_receive, handle_send, notice, Command, Notice};
use chat_core::client::SHUTDOWN_TIMEOUT;
use chat_core::handles::admin::shutdown_timeout;
use chat_core::protocol::codec::ProtocolError;
use chat_core::protocol::kind::MessageType;
use chat_core::protocol::message::{Message, MessageBuilder};
use chat_core::server::SendStep;

#[test]
fn commands_are_read_from_their_words() {
    assert_eq!(Command::parse("new"), Command::Register);
    assert_eq!(Command::parse("auth"), Command::Login);
    assert_eq!(Command::parse("msg"), Command::DirectMessage);
    assert_eq!(Command::parse("log"), Command::DebugLog);
    assert_eq!(Command::parse("dc"), Command::Disconnect);
    assert_eq!(Command::parse("shutdown"), Command::Shutdown);
    assert_eq!(Command::parse(""), Command::Heartbeat);
    assert_eq!(Command::parse("New"), Command::Heartbeat);
    assert_eq!(Command::parse("new "), Command::Heartbeat);
    assert_eq!(Command::parse("help"), Command::Heartbeat);
}

#[test]
fn three_commands_need_input() {
    assert!(Command::Register.needs_input());
    assert!(Command::Login.needs_input());
    assert!(Command::DirectMessage.needs_input());
    assert!(!Command::DebugLog.needs_input());
    assert!(!Command::Disconnect.needs_input());
    assert!(!Command::Shutdown.needs_input());
    assert!(!Command::Heartbeat.needs_input());
}

#[test]
fn each_command_has_its_message() {
    let register = Command::Register.message("alice", "pw").unwrap();
    assert_eq!(register.encode(), Message::auth_create("alice", "pw").encode());
    let login = Command::Login.message("alice", "pw").unwrap();
    assert_eq!(login.encode(), Message::auth("alice", "pw").encode());
    let direct = Command::DirectMessage.message("bob", "hi").unwrap();
    assert_eq!(direct.encode(), Message::direct_message_send("bob", "hi").encode());
    let log = Command::DebugLog.message("", "").unwrap();
    assert_eq!(log.encode(), Message::server_debug_log().encode());
    let leave = Command::Disconnect.message("", "").unwrap();
    assert_eq!(leave.encode(), Message::disconnect().encode());
    let shutdown = Command::Shutdown.message("", "").unwrap();
    assert_eq!(shutdown_timeout(&shutdown), Some(5));
    assert_eq!(SHUTDOWN_TIMEOUT, 5);
    assert!(shutdown.is(MessageType::ServerShutdown));
    let beat = Command::Heartbeat.message("", "").unwrap();
    assert!(beat.is(MessageType::Heartbeat));
}

#[test]
fn notices_say_what_the_frame_carries() {
    assert!(matches!(notice(&Message::server_shutdown_warning(7)), Notice::ShutdownIn(7)));
    match notice(&Message::message_error("User bob is not connected")) {
        Notice::NotDelivered(reason) => assert_eq!(reason, "User bob is not connected"),
        _ => panic!("a reason is passed on"),
    }
    match notice(&Message::direct_message_receive("alice", "hi")) {
        Notice::Incoming { sender, body } => {
            assert_eq!(sender, "alice");
            assert_eq!(body, "hi");
        },
        _ => panic!("a message is passed on"),
    }
    assert!(matches!(notice(&Message::ack()), Notice::Nothing));
    assert!(matches!(notice(&Message::auth_success()), Notice::Nothing));
    let empty_warning = MessageBuilder::new(MessageType::ServerShutdownWarning).build();
    assert!(matches!(notice(&empty_warning), Notice::Nothing));
    let not_text = MessageBuilder::new(MessageType::MessageError).with_field(vec![0xff]).build();
    assert!(matches!(notice(&not_text), Notice::Nothing));
    let half = MessageBuilder::new(MessageType::DirectMessageReceive)
        .with_field(b"alice".to_vec())
        .build();
    assert!(matches!(notice(&half), Notice::Nothing));
}

#[test]
fn disconnect_stops_both_tasks() {
    let step = handle_receive(Ok(Message::disconnect()));
    assert!(step.stop);
    assert!(step.disconnected);
    assert!(step.enqueue.unwrap().is(MessageType::Break));
    assert!(matches!(step.notice, Notice::Nothing));
}

#[test]
fn a_read_failure_stops_the_receive_task() {
    let step = handle_receive(Err(ProtocolError::ChecksumMismatch));
    assert!(step.stop);
    assert!(!step.disconnected);
    assert!(step.enqueue.is_none());
}

#[test]
fn a_heartbeat_is_answered_with_a_heartbeat() {
    let step = handle_receive(Ok(Message::heartbeat_at("1996-12-19T16:39:57-08:00")));
    assert!(!step.stop);
    assert!(!step.disconnected);
    let answer = step.enqueue.unwrap();
    assert!(answer.is(MessageType::Heartbeat));
    assert_eq!(answer.payload().len(), 1);
}

#[test]
fn other_frames_become_notices() {
    let step = handle_receive(Ok(Message::server_shutdown_warning(3)));
    assert!(!step.stop);
    assert!(step.enqueue.is_none());
    assert!(matches!(step.notice, Notice::ShutdownIn(3)));
    let step = handle_receive(Ok(Message::auth_success()));
    assert!(!step.stop);
    assert!(step.enqueue.is_none());
    assert!(matches!(step.notice, Notice::Nothing));
}

#[test]
fn the_client_never_writes_the_sentinel() {
    assert!(matches!(handle_send(&Message::break_sentinel()), SendStep::Stop));
    match handle_send(&Message::auth("alice", "pw")) {
        SendStep::Write(bytes) => assert_eq!(bytes, Message::auth("alice", "pw").encode()),
        SendStep::Stop => panic!("an ordinary message is written"),
    }
}

#[test]
fn the_send_task_stops_after_disconnect_or_a_failed_write() {
    assert!(after_send(&Message::ack(), true));
    assert!(!after_send(&Message::ack(), false));
    assert!(!after_send(&Message::disconnect(), true));
}
