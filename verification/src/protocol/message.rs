//! Messages: a kind, an ordered list of byte-string fields and a checksum
//! over the field bytes.

use vstd::prelude::*;
use vstd::slice::slice_to_vec;
use vstd::string::StringSliceAdditionalSpecFns;
use vstd::utf8::encode_utf8;
use crate::bytes::{be_bytes_u64, lemma_u64_be_round_trip, push_be_u64};
use crate::primitives::{crc32, crc32_of, local_now_rfc3339, timestamp_shaped};
use crate::protocol::kind::MessageType;
use crate::text::lemma_timestamp_shape;

verus! {

/// The two bytes that open every frame.
pub const HEADER_START: u16 = 0x5918;

/// The protocol version carried by every frame.
pub const VERSION: u8 = 0x01;

/// All field bytes of a message, in order, with nothing between them. This
/// is what the checksum covers.
pub open spec fn flatten(fields: Seq<Seq<u8>>) -> Seq<u8>
    decreases fields.len(),
{
    if fields.len() == 0 {
        Seq::empty()
    } else {
        flatten(fields.drop_last()) + fields.last()
    }
}

/// The byte strings that a list of byte vectors holds.
pub open spec fn field_views(fields: Seq<Vec<u8>>) -> Seq<Seq<u8>> {
    Seq::new(fields.len(), |i: int| fields[i]@)
}

/// What a message is: its kind, its fields and the checksum it carries.
pub struct MessageView {
    pub kind: MessageType,
    pub fields: Seq<Seq<u8>>,
    pub checksum: u32,
}

/// The message of a kind and fields, sealed under the checksum of the fields.
pub open spec fn sealed(kind: MessageType, fields: Seq<Seq<u8>>) -> MessageView {
    MessageView { kind, fields, checksum: crc32_of(flatten(fields)) }
}

/// Whether a message is a heartbeat whose one field is the text of a written
/// timestamp.
pub open spec fn carries_timestamp(message: MessageView) -> bool {
    exists|text: Seq<char>|
        timestamp_shaped(text) && message == #[trigger] sealed(
            MessageType::Heartbeat,
            seq![encode_utf8(text)],
        )
}

/// A heartbeat that carries a timestamp has one field of 25 to 42 bytes,
/// which is ASCII text in the shape of a timestamp.
pub proof fn lemma_carries_timestamp(message: MessageView)
    requires
        carries_timestamp(message),
    ensures
        message.kind == MessageType::Heartbeat,
        message.fields.len() == 1,
        25 <= message.fields[0].len() <= 42,
        message.intact(),
        vstd::utf8::valid_utf8(message.fields[0]),
        timestamp_shaped(vstd::utf8::decode_utf8(message.fields[0])),
{
    let text = choose|text: Seq<char>|
        timestamp_shaped(text) && message == #[trigger] sealed(
            MessageType::Heartbeat,
            seq![encode_utf8(text)],
        );
    lemma_timestamp_shape(text);
    vstd::utf8::encode_utf8_valid_utf8(text);
    vstd::utf8::encode_utf8_decode_utf8(text);
}

impl MessageView {
    /// The field count and every field length fit the four bytes the frame
    /// gives them.
    pub open spec fn fits(self) -> bool {
        &&& self.fields.len() <= u32::MAX
        &&& forall|i: int| 0 <= i < self.fields.len() ==> (#[trigger] self.fields[i]).len() <= u32::MAX
    }

    /// The carried checksum is the checksum of the field bytes.
    pub open spec fn intact(self) -> bool {
        self.checksum == crc32_of(flatten(self.fields))
    }
}

#[derive(Debug, Clone, Copy)]
struct Header {
    version: u8,
    message_type: MessageType,
}

#[derive(Debug)]
struct PayloadField {
    field_length: u32,
    field_data: Vec<u8>,
}

/// The ordered fields of a message.
#[derive(Debug)]
pub struct Payload {
    count: u32,
    fields: Vec<PayloadField>,
}

/// One complete unit of the protocol.
#[derive(Debug)]
pub struct Message {
    header: Header,
    payload: Payload,
    checksum: u32,
}

/// Collects fields one by one and seals them into a message.
#[derive(Debug)]
pub struct MessageBuilder {
    header: Header,
    payload: Payload,
}

impl Header {
    fn from_message_type(message_type: MessageType) -> (header: Self)
        ensures
            header.version == VERSION,
            header.message_type == message_type,
    {
        Header { version: VERSION, message_type }
    }
}

impl PayloadField {
    spec fn wf(self) -> bool {
        self.field_length == self.field_data@.len()
    }

    fn new(field_data: Vec<u8>) -> (field: Self)
        requires
            field_data@.len() <= u32::MAX,
        ensures
            field.wf(),
            field.field_data == field_data,
    {
        PayloadField { field_length: field_data.len() as u32, field_data }
    }
}

impl View for Payload {
    type V = Seq<Seq<u8>>;

    closed spec fn view(&self) -> Seq<Seq<u8>> {
        Seq::new(self.fields@.len(), |i: int| self.fields@[i].field_data@)
    }
}

impl Payload {
    /// The stored count and lengths agree with the fields themselves.
    pub closed spec fn wf(self) -> bool {
        &&& self.count == self.fields@.len()
        &&& forall|i: int| 0 <= i < self.fields@.len() ==> (#[trigger] self.fields@[i]).wf()
    }

    /// A well-formed payload fits the frame's four-byte count and lengths.
    pub proof fn lemma_wf_fits(self)
        requires
            self.wf(),
        ensures
            self@.len() <= u32::MAX,
            forall|i: int| 0 <= i < self@.len() ==> (#[trigger] self@[i]).len() <= u32::MAX,
    {
        assert forall|i: int| 0 <= i < self@.len() implies (#[trigger] self@[i]).len()
            <= u32::MAX by {
            assert(self.fields@[i].wf());
        }
    }

    fn add_field(&mut self, field_data: Vec<u8>)
        requires
            old(self).wf(),
            old(self)@.len() < u32::MAX,
            field_data@.len() <= u32::MAX,
        ensures
            final(self).wf(),
            final(self)@ == old(self)@.push(field_data@),
    {
        self.fields.push(PayloadField::new(field_data));
        self.count += 1;
        assert(self@ =~= old(self)@.push(field_data@));
    }

    fn add_fields(&mut self, fields: Vec<Vec<u8>>)
        requires
            old(self).wf(),
            old(self)@.len() + fields@.len() <= u32::MAX,
            forall|i: int| 0 <= i < fields@.len() ==> (#[trigger] fields@[i])@.len() <= u32::MAX,
        ensures
            final(self).wf(),
            final(self)@ == old(self)@ + field_views(fields@),
    {
        let mut i: usize = 0;
        assert(self@ + field_views(fields@).take(0) =~= self@);
        while i < fields.len()
            invariant
                i <= fields@.len(),
                self.wf(),
                old(self)@.len() + fields@.len() <= u32::MAX,
                forall|k: int| 0 <= k < fields@.len() ==> (#[trigger] fields@[k])@.len() <= u32::MAX,
                self@ == old(self)@ + field_views(fields@).take(i as int),
            decreases fields@.len() - i,
        {
            let ghost before = self@;
            self.add_field(slice_to_vec(fields[i].as_slice()));
            assert(before.push(fields@[i as int]@) =~= old(self)@ + field_views(fields@).take(
                i + 1,
            ));
            i += 1;
        }
        assert(field_views(fields@).take(i as int) =~= field_views(fields@));
    }

    fn checksum(&self) -> (sum: u32)
        ensures
            sum == crc32_of(flatten(self@)),
    {
        let mut bytes: Vec<u8> = Vec::new();
        let mut i: usize = 0;
        while i < self.fields.len()
            invariant
                i <= self.fields@.len(),
                bytes@ == flatten(self@.take(i as int)),
            decreases self.fields@.len() - i,
        {
            let mut j: usize = 0;
            let data = &self.fields[i].field_data;
            while j < data.len()
                invariant
                    i < self.fields@.len(),
                    data == &self.fields@[i as int].field_data,
                    j <= data@.len(),
                    bytes@ == flatten(self@.take(i as int)) + data@.take(j as int),
                decreases data@.len() - j,
            {
                bytes.push(data[j]);
                assert(data@.take(j + 1) =~= data@.take(j as int).push(data@[j as int]));
                j += 1;
            }
            proof {
                assert(data@.take(j as int) =~= data@);
                assert(self@.take(i + 1).drop_last() =~= self@.take(i as int));
                assert(self@.take(i + 1).last() == data@);
            }
            i += 1;
        }
        assert(self@.take(i as int) =~= self@);
        crc32(bytes.as_slice())
    }

    /// The number of fields.
    pub fn len(&self) -> (count: usize)
        ensures
            count == self@.len(),
    {
        self.fields.len()
    }

    /// The number of fields, as the frame states it.
    pub fn count(&self) -> (count: u32)
        requires
            self.wf(),
        ensures
            count == self@.len(),
    {
        self.count
    }

    /// The length of the field at `index`, as the frame states it.
    pub fn field_length(&self, index: usize) -> (length: u32)
        requires
            self.wf(),
            index < self@.len(),
        ensures
            length == self@[index as int].len(),
    {
        assert(self.fields@[index as int].wf());
        self.fields[index].field_length
    }

    /// The bytes of the field at `index`.
    pub fn field(&self, index: usize) -> (data: &[u8])
        requires
            index < self@.len(),
        ensures
            data@ == self@[index as int],
    {
        self.fields[index].field_data.as_slice()
    }

    /// A copy of every field, in order.
    pub fn get_data(&self) -> (data: Vec<Vec<u8>>)
        ensures
            data@.len() == self@.len(),
            forall|i: int| 0 <= i < data@.len() ==> (#[trigger] data@[i])@ == self@[i],
    {
        let mut data: Vec<Vec<u8>> = Vec::new();
        let mut i: usize = 0;
        while i < self.fields.len()
            invariant
                i <= self.fields@.len(),
                data@.len() == i,
                forall|k: int| 0 <= k < i ==> (#[trigger] data@[k])@ == self@[k],
            decreases self.fields@.len() - i,
        {
            data.push(slice_to_vec(self.fields[i].field_data.as_slice()));
            i += 1;
        }
        data
    }
}

impl Clone for Payload {
    fn clone(&self) -> (copy: Self)
        ensures
            copy@ == self@,
            self.wf() ==> copy.wf(),
    {
        let mut fields: Vec<PayloadField> = Vec::new();
        let mut i: usize = 0;
        while i < self.fields.len()
            invariant
                i <= self.fields@.len(),
                fields@.len() == i,
                forall|k: int|
                    0 <= k < i ==> (#[trigger] fields@[k]).field_data@
                        == self.fields@[k].field_data@ && fields@[k].field_length
                        == self.fields@[k].field_length,
            decreases self.fields@.len() - i,
        {
            fields.push(
                PayloadField {
                    field_length: self.fields[i].field_length,
                    field_data: slice_to_vec(self.fields[i].field_data.as_slice()),
                },
            );
            i += 1;
        }
        let copy = Payload { count: self.count, fields };
        proof {
            assert(copy@ =~= self@);
            if self.wf() {
                assert forall|k: int| 0 <= k < copy.fields@.len() implies (
                #[trigger] copy.fields@[k]).wf() by {
                    assert(self.fields@[k].wf());
                }
            }
        }
        copy
    }
}

impl Clone for Message {
    fn clone(&self) -> (copy: Self)
        ensures
            copy@ == self@,
    {
        proof {
            use_type_invariant(self);
        }
        Message { header: self.header, payload: self.payload.clone(), checksum: self.checksum }
    }
}

impl Default for Payload {
    fn default() -> (payload: Self)
        ensures
            payload.wf(),
            payload@ == Seq::<Seq<u8>>::empty(),
    {
        let payload = Payload { count: 0, fields: Vec::new() };
        assert(payload@ =~= Seq::<Seq<u8>>::empty());
        payload
    }
}

impl View for Message {
    type V = MessageView;

    closed spec fn view(&self) -> MessageView {
        MessageView {
            kind: self.header.message_type,
            fields: self.payload@,
            checksum: self.checksum,
        }
    }
}

impl Message {
    #[verifier::type_invariant]
    spec fn inv(self) -> bool {
        self.header.version == VERSION && self.payload.wf()
    }

    /// Whether the message is of the given kind.
    pub fn is(&self, message_type: MessageType) -> (same: bool)
        ensures
            same == (self@.kind == message_type),
    {
        self.header.message_type == message_type
    }

    /// The kind of the message.
    pub fn message_type(&self) -> (kind: MessageType)
        ensures
            kind == self@.kind,
    {
        self.header.message_type
    }

    /// The fields of the message.
    pub fn payload(&self) -> (payload: &Payload)
        ensures
            payload@ == self@.fields,
            payload.wf(),
            self@.fits(),
    {
        proof {
            use_type_invariant(self);
            self.payload.lemma_wf_fits();
        }
        &self.payload
    }

    /// The checksum the message carries.
    pub fn checksum(&self) -> (sum: u32)
        ensures
            sum == self@.checksum,
    {
        self.checksum
    }

    /// The checksum of the message's field bytes, computed afresh.
    pub fn checksum_of_fields(&self) -> (sum: u32)
        ensures
            sum == crc32_of(flatten(self@.fields)),
    {
        self.payload.checksum()
    }

    /// The protocol version the message carries; it is always `VERSION`.
    pub fn version(&self) -> (version: u8)
        ensures
            version == VERSION,
    {
        proof {
            use_type_invariant(self);
        }
        self.header.version
    }
}

impl Message {
    fn bare(message_type: MessageType) -> (message: Message)
        ensures
            message@ == sealed(message_type, Seq::empty()),
    {
        MessageBuilder::new(message_type).build()
    }

    fn with_text(message_type: MessageType, text: &str) -> (message: Message)
        requires
            text.spec_bytes().len() <= u32::MAX,
        ensures
            message@ == sealed(message_type, seq![text.spec_bytes()]),
    {
        let message = MessageBuilder::new(message_type).with_field(
            slice_to_vec(text.as_bytes()),
        ).build();
        assert(message@.fields =~= seq![text.spec_bytes()]);
        message
    }

    fn with_two_texts(message_type: MessageType, first: &str, second: &str) -> (message: Message)
        requires
            first.spec_bytes().len() <= u32::MAX,
            second.spec_bytes().len() <= u32::MAX,
        ensures
            message@ == sealed(message_type, seq![first.spec_bytes(), second.spec_bytes()]),
    {
        let message = MessageBuilder::new(message_type).with_field(
            slice_to_vec(first.as_bytes()),
        ).with_field(slice_to_vec(second.as_bytes())).build();
        assert(message@.fields =~= seq![first.spec_bytes(), second.spec_bytes()]);
        message
    }

    fn with_seconds(message_type: MessageType, seconds: u64) -> (message: Message)
        ensures
            message@ == sealed(message_type, seq![be_bytes_u64(seconds)]),
    {
        let mut field: Vec<u8> = Vec::new();
        push_be_u64(&mut field, seconds);
        proof {
            lemma_u64_be_round_trip(seconds);
            assert(field@ =~= be_bytes_u64(seconds));
        }
        let message = MessageBuilder::new(message_type).with_field(field).build();
        assert(message@.fields =~= seq![be_bytes_u64(seconds)]);
        message
    }

    /// Positive acknowledgement; no fields.
    pub fn ack() -> (message: Message)
        ensures
            message@ == sealed(MessageType::Ack, Seq::empty()),
    {
        Message::bare(MessageType::Ack)
    }

    /// Refusal; no fields.
    pub fn nack() -> (message: Message)
        ensures
            message@ == sealed(MessageType::Nack, Seq::empty()),
    {
        Message::bare(MessageType::Nack)
    }

    /// Request or notice to end the connection; no fields.
    pub fn disconnect() -> (message: Message)
        ensures
            message@ == sealed(MessageType::Disconnect, Seq::empty()),
    {
        Message::bare(MessageType::Disconnect)
    }

    /// The empty message; no fields.
    pub fn empty() -> (message: Message)
        ensures
            message@ == sealed(MessageType::Empty, Seq::empty()),
    {
        Message::bare(MessageType::Empty)
    }

    /// The internal sentinel that tells a send task to stop; no fields.
    pub fn break_sentinel() -> (message: Message)
        ensures
            message@ == sealed(MessageType::Break, Seq::empty()),
    {
        Message::bare(MessageType::Break)
    }

    /// Request for a diagnostic dump of the directory; no fields.
    pub fn server_debug_log() -> (message: Message)
        ensures
            message@ == sealed(MessageType::ServerDebugLog, Seq::empty()),
    {
        Message::bare(MessageType::ServerDebugLog)
    }

    /// Notice that authentication succeeded; no fields.
    pub fn auth_success() -> (message: Message)
        ensures
            message@ == sealed(MessageType::AuthSuccess, Seq::empty()),
    {
        Message::bare(MessageType::AuthSuccess)
    }

    /// A heartbeat that carries the given RFC 3339 timestamp.
    pub fn heartbeat_at(timestamp: &str) -> (message: Message)
        requires
            timestamp.spec_bytes().len() <= u32::MAX,
        ensures
            message@ == sealed(MessageType::Heartbeat, seq![timestamp.spec_bytes()]),
    {
        Message::with_text(MessageType::Heartbeat, timestamp)
    }

    /// A heartbeat that carries the local time of the call: the kind is
    /// `Heartbeat` and the one field is the clock's text, a written timestamp
    /// of 25 to 42 bytes.
    pub fn heartbeat() -> (message: Message)
        ensures
            message@.kind == MessageType::Heartbeat,
            message@.fields.len() == 1,
            25 <= message@.fields[0].len() <= 42,
            message@.intact(),
            carries_timestamp(message@),
    {
        let now = local_now_rfc3339();
        proof {
            lemma_timestamp_shape(now@);
        }
        let message = Message::heartbeat_at(now.as_str());
        assert(message@ == sealed(MessageType::Heartbeat, seq![encode_utf8(now@)]));
        message
    }

    /// Login request: username and password.
    pub fn auth(username: &str, password: &str) -> (message: Message)
        requires
            username.spec_bytes().len() <= u32::MAX,
            password.spec_bytes().len() <= u32::MAX,
        ensures
            message@ == sealed(
                MessageType::Auth,
                seq![username.spec_bytes(), password.spec_bytes()],
            ),
    {
        Message::with_two_texts(MessageType::Auth, username, password)
    }

    /// Registration request: username and password.
    pub fn auth_create(username: &str, password: &str) -> (message: Message)
        requires
            username.spec_bytes().len() <= u32::MAX,
            password.spec_bytes().len() <= u32::MAX,
        ensures
            message@ == sealed(
                MessageType::AuthCreate,
                seq![username.spec_bytes(), password.spec_bytes()],
            ),
    {
        Message::with_two_texts(MessageType::AuthCreate, username, password)
    }

    /// Notice that authentication failed, with the reason.
    pub fn auth_fail(error: &str) -> (message: Message)
        requires
            error.spec_bytes().len() <= u32::MAX,
        ensures
            message@ == sealed(MessageType::AuthFailure, seq![error.spec_bytes()]),
    {
        Message::with_text(MessageType::AuthFailure, error)
    }

    /// Notice that a direct message could not be delivered, with the reason.
    pub fn message_error(error: &str) -> (message: Message)
        requires
            error.spec_bytes().len() <= u32::MAX,
        ensures
            message@ == sealed(MessageType::MessageError, seq![error.spec_bytes()]),
    {
        Message::with_text(MessageType::MessageError, error)
    }

    /// Direct message on its way to the server: recipient and body.
    pub fn direct_message_send(recipient: &str, body: &str) -> (message: Message)
        requires
            recipient.spec_bytes().len() <= u32::MAX,
            body.spec_bytes().len() <= u32::MAX,
        ensures
            message@ == sealed(
                MessageType::DirectMessageSend,
                seq![recipient.spec_bytes(), body.spec_bytes()],
            ),
    {
        Message::with_two_texts(MessageType::DirectMessageSend, recipient, body)
    }

    /// Direct message on its way to the recipient: sender and body.
    pub fn direct_message_receive(sender: &str, body: &str) -> (message: Message)
        requires
            sender.spec_bytes().len() <= u32::MAX,
            body.spec_bytes().len() <= u32::MAX,
        ensures
            message@ == sealed(
                MessageType::DirectMessageReceive,
                seq![sender.spec_bytes(), body.spec_bytes()],
            ),
    {
        Message::with_two_texts(MessageType::DirectMessageReceive, sender, body)
    }

    /// Request to shut the server down after `timeout` seconds.
    pub fn server_shutdown(timeout: u64) -> (message: Message)
        ensures
            message@ == sealed(MessageType::ServerShutdown, seq![be_bytes_u64(timeout)]),
    {
        Message::with_seconds(MessageType::ServerShutdown, timeout)
    }

    /// Warning that the server shuts down in `timeout` seconds.
    pub fn server_shutdown_warning(timeout: u64) -> (message: Message)
        ensures
            message@ == sealed(MessageType::ServerShutdownWarning, seq![be_bytes_u64(timeout)]),
    {
        Message::with_seconds(MessageType::ServerShutdownWarning, timeout)
    }
}

impl MessageBuilder {
    #[verifier::type_invariant]
    spec fn inv(self) -> bool {
        self.header.version == VERSION && self.payload.wf()
    }

    /// The kind the message will have.
    pub closed spec fn kind(self) -> MessageType {
        self.header.message_type
    }

    /// The fields collected so far.
    pub closed spec fn fields(self) -> Seq<Seq<u8>> {
        self.payload@
    }

    /// Starts a message of the given kind with no fields.
    pub fn new(message_type: MessageType) -> (builder: Self)
        ensures
            builder.kind() == message_type,
            builder.fields() == Seq::<Seq<u8>>::empty(),
    {
        MessageBuilder {
            header: Header::from_message_type(message_type),
            payload: Payload::default(),
        }
    }

    /// Appends one field. The frame stores the field count and each length in
    /// four bytes, so both must fit.
    pub fn with_field(self, field_data: Vec<u8>) -> (builder: Self)
        requires
            self.fields().len() < u32::MAX,
            field_data@.len() <= u32::MAX,
        ensures
            builder.kind() == self.kind(),
            builder.fields() == self.fields().push(field_data@),
    {
        proof {
            use_type_invariant(&self);
        }
        let mut payload = self.payload;
        payload.add_field(field_data);
        MessageBuilder { header: self.header, payload }
    }

    /// Appends the fields in their order. The frame stores the field count
    /// and each length in four bytes, so all of them must fit.
    pub fn with_fields(self, fields: Vec<Vec<u8>>) -> (builder: Self)
        requires
            self.fields().len() + fields@.len() <= u32::MAX,
            forall|i: int| 0 <= i < fields@.len() ==> (#[trigger] fields@[i])@.len() <= u32::MAX,
        ensures
            builder.kind() == self.kind(),
            builder.fields() == self.fields() + field_views(fields@),
    {
        proof {
            use_type_invariant(&self);
        }
        let mut payload = self.payload;
        payload.add_fields(fields);
        MessageBuilder { header: self.header, payload }
    }

    /// Seals the collected fields under a checksum supplied by the caller.
    pub fn seal(self, checksum: u32) -> (message: Message)
        ensures
            message@ == (MessageView { kind: self.kind(), fields: self.fields(), checksum }),
            message@.fits(),
    {
        proof {
            use_type_invariant(&self);
            self.payload.lemma_wf_fits();
        }
        Message { header: self.header, payload: self.payload, checksum }
    }

    /// Computes the checksum of the collected fields and seals them under it.
    pub fn build(self) -> (message: Message)
        ensures
            message@.kind == self.kind(),
            message@.fields == self.fields(),
            message@.intact(),
            message@.fits(),
    {
        proof {
            use_type_invariant(&self);
        }
        let checksum = self.payload.checksum();
        self.seal(checksum)
    }
}

} // verus!
