//! Message kinds and their one-byte wire codes.

use vstd::prelude::*;

verus! {

/// The closed set of message kinds.
#[derive(Debug, Clone, Copy, PartialEq, Eq, Hash, Structural)]
pub enum MessageType {
    Empty,
    Ack,
    Nack,
    Disconnect,
    Heartbeat,
    Auth,
    AuthCreate,
    AuthSuccess,
    AuthFailure,
    ServerDebugLog,
    ServerShutdown,
    ServerShutdownWarning,
    DirectMessageSend,
    DirectMessageReceive,
    MessageError,
    /// Internal sentinel that unwinds a send task; it never travels.
    Break,
}

impl MessageType {
    /// The byte that stands for this kind on the wire.
    pub open spec fn code(self) -> u8 {
        match self {
            MessageType::Empty => 0x00,
            MessageType::Ack => 0x01,
            MessageType::Nack => 0x02,
            MessageType::Disconnect => 0x03,
            MessageType::Heartbeat => 0x04,
            MessageType::Auth => 0x10,
            MessageType::AuthCreate => 0x11,
            MessageType::AuthSuccess => 0x12,
            MessageType::AuthFailure => 0x13,
            MessageType::ServerDebugLog => 0x20,
            MessageType::ServerShutdown => 0x21,
            MessageType::ServerShutdownWarning => 0x22,
            MessageType::DirectMessageSend => 0x30,
            MessageType::DirectMessageReceive => 0x31,
            MessageType::MessageError => 0x32,
            MessageType::Break => 0xff,
        }
    }

    /// The kind a wire byte stands for; a byte that names no kind reads as
    /// `Empty`.
    pub open spec fn from_code(value: u8) -> MessageType {
        if value == 0x01 {
            MessageType::Ack
        } else if value == 0x02 {
            MessageType::Nack
        } else if value == 0x03 {
            MessageType::Disconnect
        } else if value == 0x04 {
            MessageType::Heartbeat
        } else if value == 0x10 {
            MessageType::Auth
        } else if value == 0x11 {
            MessageType::AuthCreate
        } else if value == 0x12 {
            MessageType::AuthSuccess
        } else if value == 0x13 {
            MessageType::AuthFailure
        } else if value == 0x20 {
            MessageType::ServerDebugLog
        } else if value == 0x21 {
            MessageType::ServerShutdown
        } else if value == 0x22 {
            MessageType::ServerShutdownWarning
        } else if value == 0x30 {
            MessageType::DirectMessageSend
        } else if value == 0x31 {
            MessageType::DirectMessageReceive
        } else if value == 0x32 {
            MessageType::MessageError
        } else if value == 0xff {
            MessageType::Break
        } else {
            MessageType::Empty
        }
    }

    /// Reads a kind from its wire byte. Unknown bytes fall back to `Empty`.
    pub fn from(value: u8) -> (kind: Self)
        ensures
            kind == Self::from_code(value),
    {
        match value {
            0x00 => MessageType::Empty,
            0x01 => MessageType::Ack,
            0x02 => MessageType::Nack,
            0x03 => MessageType::Disconnect,
            0x04 => MessageType::Heartbeat,
            0x10 => MessageType::Auth,
            0x11 => MessageType::AuthCreate,
            0x12 => MessageType::AuthSuccess,
            0x13 => MessageType::AuthFailure,
            0x20 => MessageType::ServerDebugLog,
            0x21 => MessageType::ServerShutdown,
            0x22 => MessageType::ServerShutdownWarning,
            0x30 => MessageType::DirectMessageSend,
            0x31 => MessageType::DirectMessageReceive,
            0x32 => MessageType::MessageError,
            0xff => MessageType::Break,
            _ => MessageType::Empty,
        }
    }

    /// The wire byte of this kind.
    pub fn to_byte(self) -> (value: u8)
        ensures
            value == self.code(),
            Self::from_code(value) == self,
    {
        match self {
            MessageType::Empty => 0x00,
            MessageType::Ack => 0x01,
            MessageType::Nack => 0x02,
            MessageType::Disconnect => 0x03,
            MessageType::Heartbeat => 0x04,
            MessageType::Auth => 0x10,
            MessageType::AuthCreate => 0x11,
            MessageType::AuthSuccess => 0x12,
            MessageType::AuthFailure => 0x13,
            MessageType::ServerDebugLog => 0x20,
            MessageType::ServerShutdown => 0x21,
            MessageType::ServerShutdownWarning => 0x22,
            MessageType::DirectMessageSend => 0x30,
            MessageType::DirectMessageReceive => 0x31,
            MessageType::MessageError => 0x32,
            MessageType::Break => 0xff,
        }
    }
}

/// Every kind survives the trip through its wire byte.
pub proof fn lemma_kind_code_round_trip(kind: MessageType)
    ensures
        MessageType::from_code(kind.code()) == kind,
{
}

/// Two kinds with the same wire byte are the same kind.
pub proof fn lemma_kind_code_injective(a: MessageType, b: MessageType)
    requires
        a.code() == b.code(),
    ensures
        a == b,
{
    lemma_kind_code_round_trip(a);
    lemma_kind_code_round_trip(b);
}

} // verus!
