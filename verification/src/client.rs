//! The decisions of a client: which message a command stands for, and what
//! the two tasks of its connection do with each frame and each outgoing
//! message.

use vstd::prelude::*;
use vstd::string::StringSliceAdditionalSpecFns;
use crate::bytes::be_bytes_u64;
use crate::handles::admin::{shutdown_timeout, timeout_spec};
use crate::handles::{field_text, read_text};
use crate::protocol::codec::{frame, ProtocolError};
use crate::protocol::kind::MessageType;
use crate::protocol::message::{carries_timestamp, sealed, Message, MessageView};
use crate::server::SendStep;
use crate::text::same_text;

verus! {

/// Seconds of warning that a client asks for when it requests a shutdown.
pub const SHUTDOWN_TIMEOUT: u64 = 5;

/// What the user asked for.
#[derive(Debug, Clone, Copy, PartialEq, Eq, Structural)]
pub enum Command {
    /// `new`: register; needs a username and a password.
    Register,
    /// `auth`: log in; needs a username and a password.
    Login,
    /// `msg`: send a direct message; needs a recipient and a body.
    DirectMessage,
    /// `log`: ask the server for a diagnostic dump.
    DebugLog,
    /// `dc`: disconnect.
    Disconnect,
    /// `shutdown`: ask the server to shut down.
    Shutdown,
    /// Anything else: send a heartbeat.
    Heartbeat,
}

impl Command {
    /// The command that a line of input stands for.
    pub open spec fn of(line: Seq<char>) -> Command {
        if line == "new"@ {
            Command::Register
        } else if line == "auth"@ {
            Command::Login
        } else if line == "msg"@ {
            Command::DirectMessage
        } else if line == "log"@ {
            Command::DebugLog
        } else if line == "dc"@ {
            Command::Disconnect
        } else if line == "shutdown"@ {
            Command::Shutdown
        } else {
            Command::Heartbeat
        }
    }

    /// Reads a command from a line of input, surrounding blanks removed.
    pub fn parse(line: &str) -> (command: Command)
        ensures
            command == Command::of(line@),
    {
        if same_text(line, "new") {
            Command::Register
        } else if same_text(line, "auth") {
            Command::Login
        } else if same_text(line, "msg") {
            Command::DirectMessage
        } else if same_text(line, "log") {
            Command::DebugLog
        } else if same_text(line, "dc") {
            Command::Disconnect
        } else if same_text(line, "shutdown") {
            Command::Shutdown
        } else {
            Command::Heartbeat
        }
    }

    /// Whether the command needs two pieces of text from the user.
    pub open spec fn takes_input(self) -> bool {
        self == Command::Register || self == Command::Login || self == Command::DirectMessage
    }

    /// Whether the command needs two pieces of text from the user.
    pub fn needs_input(&self) -> (needed: bool)
        ensures
            needed == self.takes_input(),
    {
        match self {
            Command::Register | Command::Login | Command::DirectMessage => true,
            _ => false,
        }
    }

    /// The kind of the message that carries the command.
    pub open spec fn kind(self) -> MessageType {
        match self {
            Command::Register => MessageType::AuthCreate,
            Command::Login => MessageType::Auth,
            Command::DirectMessage => MessageType::DirectMessageSend,
            Command::DebugLog => MessageType::ServerDebugLog,
            Command::Disconnect => MessageType::Disconnect,
            Command::Shutdown => MessageType::ServerShutdown,
            Command::Heartbeat => MessageType::Heartbeat,
        }
    }

    /// The message that carries the command. The two texts are used by the
    /// commands that need input and ignored by the others. There is a message
    /// for every command; `None` only where a command needs input and one of
    /// the texts does not fit a field.
    pub fn message(&self, first: &str, second: &str) -> (message: Option<Message>)
        ensures
            message is None <==> self.takes_input() && (first.spec_bytes().len() > u32::MAX
                || second.spec_bytes().len() > u32::MAX),
            message matches Some(m) ==> m@.kind == self.kind() && m@.intact() && match *self {
                Command::Register | Command::Login | Command::DirectMessage => m@.fields == seq![
                    first.spec_bytes(),
                    second.spec_bytes(),
                ],
                Command::DebugLog | Command::Disconnect => m@.fields == Seq::<Seq<u8>>::empty(),
                Command::Shutdown => m@.fields == seq![be_bytes_u64(SHUTDOWN_TIMEOUT)],
                Command::Heartbeat => carries_timestamp(m@) && m@.fields.len() == 1 && 25
                    <= m@.fields[0].len() <= 42,
            },
    {
        match self {
            Command::DebugLog => Some(Message::server_debug_log()),
            Command::Disconnect => Some(Message::disconnect()),
            Command::Shutdown => Some(Message::server_shutdown(SHUTDOWN_TIMEOUT)),
            Command::Heartbeat => Some(Message::heartbeat()),
            _ => {
                if first.as_bytes().len() > u32::MAX as usize || second.as_bytes().len()
                    > u32::MAX as usize {
                    return None;
                }
                match self {
                    Command::Register => Some(Message::auth_create(first, second)),
                    Command::Login => Some(Message::auth(first, second)),
                    _ => Some(Message::direct_message_send(first, second)),
                }
            },
        }
    }
}

/// Something to tell the user.
#[derive(Debug)]
pub enum Notice {
    Nothing,
    /// The server shuts down in this many seconds.
    ShutdownIn(u64),
    /// A direct message could not be delivered, for this reason.
    NotDelivered(String),
    /// A direct message arrived.
    Incoming { sender: String, body: String },
}

/// What a notice says.
pub enum NoticeView {
    Nothing,
    ShutdownIn(u64),
    NotDelivered(Seq<char>),
    Incoming { sender: Seq<char>, body: Seq<char> },
}

impl View for Notice {
    type V = NoticeView;

    open spec fn view(&self) -> NoticeView {
        match self {
            Notice::Nothing => NoticeView::Nothing,
            Notice::ShutdownIn(seconds) => NoticeView::ShutdownIn(*seconds),
            Notice::NotDelivered(reason) => NoticeView::NotDelivered(reason@),
            Notice::Incoming { sender, body } => NoticeView::Incoming {
                sender: sender@,
                body: body@,
            },
        }
    }
}

/// The outcome of one step of the client's receive task.
#[derive(Debug)]
pub struct ClientStep {
    /// A message to put on the client's own outbound queue.
    pub enqueue: Option<Message>,
    pub notice: Notice,
    /// Whether the receive task stops.
    pub stop: bool,
    /// Whether the server asked the client to disconnect; the send task is
    /// then to be told to stop as well.
    pub disconnected: bool,
}

/// What a frame tells the user. A frame that lacks what its kind promises
/// tells nothing.
pub open spec fn notice_spec(message: MessageView) -> NoticeView {
    match message.kind {
        MessageType::ServerShutdownWarning => match timeout_spec(message.fields) {
            Some(seconds) => NoticeView::ShutdownIn(seconds),
            None => NoticeView::Nothing,
        },
        MessageType::MessageError => match field_text(message.fields, 0) {
            Some(reason) => NoticeView::NotDelivered(reason),
            None => NoticeView::Nothing,
        },
        MessageType::DirectMessageReceive => match (
            field_text(message.fields, 0),
            field_text(message.fields, 1),
        ) {
            (Some(sender), Some(body)) => NoticeView::Incoming { sender, body },
            _ => NoticeView::Nothing,
        },
        _ => NoticeView::Nothing,
    }
}

/// What a frame tells the user.
pub fn notice(message: &Message) -> (notice: Notice)
    ensures
        notice@ == notice_spec(message@),
{
    match message.message_type() {
        MessageType::ServerShutdownWarning => match shutdown_timeout(message) {
            Some(seconds) => Notice::ShutdownIn(seconds),
            None => Notice::Nothing,
        },
        MessageType::MessageError => match read_text(message, 0) {
            Some(reason) => Notice::NotDelivered(reason.to_owned()),
            None => Notice::Nothing,
        },
        MessageType::DirectMessageReceive => match read_text(message, 0) {
            Some(sender) => match read_text(message, 1) {
                Some(body) => Notice::Incoming { sender: sender.to_owned(), body: body.to_owned() },
                None => Notice::Nothing,
            },
            None => Notice::Nothing,
        },
        _ => Notice::Nothing,
    }
}

/// A frame was read, or reading failed. A failure stops the receive task.
/// `Disconnect` stops it too and puts the sentinel on the client's own queue,
/// which stops the send task. A heartbeat is answered with a heartbeat that
/// carries the local time. Every other frame is passed on as a notice.
pub fn handle_receive(received: Result<Message, ProtocolError>) -> (step: ClientStep)
    ensures
        step.disconnected == (received matches Ok(message) && message@.kind
            == MessageType::Disconnect),
        match received {
            Err(_) => step.stop && step.enqueue is None && step.notice@ == NoticeView::Nothing,
            Ok(message) => match message@.kind {
                MessageType::Disconnect => step.stop && step.notice@ == NoticeView::Nothing && (
                step.enqueue matches Some(m) && m@ == sealed(MessageType::Break, Seq::empty())),
                MessageType::Heartbeat => !step.stop && step.notice@ == NoticeView::Nothing && (
                step.enqueue matches Some(m) && carries_timestamp(m@) && m@.fields.len() == 1
                    && 25 <= m@.fields[0].len() <= 42),
                _ => !step.stop && step.enqueue is None && step.notice@ == notice_spec(message@),
            },
        },
{
    match received {
        Err(_) => ClientStep {
            enqueue: None,
            notice: Notice::Nothing,
            stop: true,
            disconnected: false,
        },
        Ok(message) => match message.message_type() {
            MessageType::Disconnect => ClientStep {
                enqueue: Some(Message::break_sentinel()),
                notice: Notice::Nothing,
                stop: true,
                disconnected: true,
            },
            MessageType::Heartbeat => ClientStep {
                enqueue: Some(Message::heartbeat()),
                notice: Notice::Nothing,
                stop: false,
                disconnected: false,
            },
            _ => ClientStep {
                enqueue: None,
                notice: notice(&message),
                stop: false,
                disconnected: false,
            },
        },
    }
}

/// A message was taken from the client's outbound queue. The sentinel is
/// never written: it stops the send task. Any other message is to be written
/// as its frame.
pub fn handle_send(message: &Message) -> (step: SendStep)
    ensures
        match step {
            SendStep::Stop => message@.kind == MessageType::Break,
            SendStep::Write(bytes) => message@.kind != MessageType::Break && bytes@ == frame(
                message@,
            ),
        },
{
    if message.is(MessageType::Break) {
        SendStep::Stop
    } else {
        SendStep::Write(message.encode())
    }
}

/// A write finished. The send task goes on if the write succeeded and the
/// message was not `Disconnect`.
pub fn after_send(message: &Message, written: bool) -> (go_on: bool)
    ensures
        go_on == (written && message@.kind != MessageType::Disconnect),
{
    written && !message.is(MessageType::Disconnect)
}

} // verus!
