use chat_core::protocol::kind::MessageType;
use chat_core::session::AccessLevel;

fn all_kinds() -> Vec<MessageType> {
    vec![
        MessageType::Empty,
        MessageType::Ack,
        MessageType::Nack,
        MessageType::Disconnect,
        MessageType::Heartbeat,
        MessageType::Auth,
        MessageType::AuthCreate,
        MessageType::AuthSuccess,
        MessageType::AuthFailure,
        MessageType::ServerDebugLog,
        MessageType::ServerShutdown,
        MessageType::ServerShutdownWarning,
        MessageType::DirectMessageSend,
        MessageType::DirectMessageReceive,
        MessageType::MessageError,
        MessageType::Break,
    ]
}

fn allowed(level: AccessLevel) -> Vec<MessageType> {
    all_kinds().into_iter().filter(|kind| level.can_access(kind)).collect()
}

#[test]
fn guest_may_only_authenticate_beat_and_leave() {
    assert_eq!(
        allowed(AccessLevel::Guest),
        vec![
            MessageType::Disconnect,
            MessageType::Heartbeat,
            MessageType::Auth,
            MessageType::AuthCreate,
        ]
    );
}

#[test]
fn user_gains_direct_messages() {
    assert_eq!(
        allowed(AccessLevel::User),
        vec![
            MessageType::Disconnect,
            MessageType::Heartbeat,
            MessageType::Auth,
            MessageType::AuthCreate,
            MessageType::DirectMessageSend,
        ]
    );
}

#[test]
fn admin_gains_debug_log_and_shutdown() {
    assert_eq!(
        allowed(AccessLevel::Admin),
        vec![
            MessageType::Disconnect,
            MessageType::Heartbeat,
            MessageType::Auth,
            MessageType::AuthCreate,
            MessageType::ServerDebugLog,
            MessageType::ServerShutdown,
            MessageType::DirectMessageSend,
        ]
    );
}

#[test]
fn each_level_allows_strictly_more_than_the_one_below() {
    let guest = allowed(AccessLevel::Guest);
    let user = allowed(AccessLevel::User);
    let admin = allowed(AccessLevel::Admin);
    assert!(guest.iter().all(|kind| user.contains(kind)));
    assert!(user.iter().all(|kind| admin.contains(kind)));
    assert!(guest.len() < user.len());
    assert!(user.len() < admin.len());
}

#[test]
fn the_sentinel_is_never_accepted_from_a_peer() {
    for level in [AccessLevel::Guest, AccessLevel::User, AccessLevel::Admin] {
        assert!(!level.can_access(&MessageType::Break));
    }
}

#[test]
fn kind_codes() {
    let table: Vec<(u8, MessageType)> = vec![
        (0x00, MessageType::Empty),
        (0x01, MessageType::Ack),
        (0x02, MessageType::Nack),
        (0x03, MessageType::Disconnect),
        (0x04, MessageType::Heartbeat),
        (0x10, MessageType::Auth),
        (0x11, MessageType::AuthCreate),
        (0x12, MessageType::AuthSuccess),
        (0x13, MessageType::AuthFailure),
        (0x20, MessageType::ServerDebugLog),
        (0x21, MessageType::ServerShutdown),
        (0x22, MessageType::ServerShutdownWarning),
        (0x30, MessageType::DirectMessageSend),
        (0x31, MessageType::DirectMessageReceive),
        (0x32, MessageType::MessageError),
        (0xff, MessageType::Break),
    ];
    for (code, kind) in table {
        assert_eq!(MessageType::from(code), kind);
        assert_eq!(kind.to_byte(), code);
    }
}

#[test]
fn unknown_codes_read_as_empty() {
    let known: Vec<u8> = all_kinds().into_iter().map(|kind| kind.to_byte()).collect();
    for code in 0..=255u8 {
        if !known.contains(&code) {
            assert_eq!(MessageType::from(code), MessageType::Empty);
        }
    }
}
