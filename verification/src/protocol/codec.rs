//! Frames: how a message is laid out in bytes, and how bytes are read back.
//!
//! A frame is the two magic bytes, one version byte, one kind byte, the field
//! count in four big-endian bytes, then each field as its length in four
//! big-endian bytes followed by its bytes, then the checksum in four
//! big-endian bytes. Reading starts behind the magic bytes.

use vstd::prelude::*;
use vstd::slice::{slice_subrange, slice_to_vec};
use crate::bytes::{
    be_bytes_u32, lemma_u32_be_round_trip, push_be_u32, read_be_u32, u32_from_be_bytes,
};
use crate::primitives::crc32_of;
use crate::protocol::kind::{lemma_kind_code_round_trip, MessageType};
use crate::protocol::message::{
    flatten, Message, MessageBuilder, MessageView, HEADER_START, VERSION,
};

verus! {

/// Why a frame could not be read.
#[derive(Debug, Clone, Copy, PartialEq, Eq, Structural)]
pub enum ProtocolError {
    /// The version byte is not this protocol's.
    VersionMismatch,
    /// The checksum in the frame is not the checksum of its fields.
    ChecksumMismatch,
    /// The bytes end before the frame does.
    Truncated,
}

impl ProtocolError {
    /// A short description for logs.
    pub fn to_string(&self) -> (text: String)
        ensures
            text@ == match *self {
                ProtocolError::VersionMismatch => "Invalid version"@,
                ProtocolError::ChecksumMismatch => "Invalid checksum"@,
                ProtocolError::Truncated => "Unexpected end of frame"@,
            },
    {
        match self {
            ProtocolError::VersionMismatch => "Invalid version".to_string(),
            ProtocolError::ChecksumMismatch => "Invalid checksum".to_string(),
            ProtocolError::Truncated => "Unexpected end of frame".to_string(),
        }
    }
}

/// The two bytes of the magic constant, most significant first.
pub open spec fn magic() -> Seq<u8> {
    seq![(HEADER_START / 0x100) as u8, (HEADER_START % 0x100) as u8]
}

/// One field on the wire: its length, then its bytes.
pub open spec fn encode_field(field: Seq<u8>) -> Seq<u8> {
    be_bytes_u32(field.len() as u32) + field
}

/// The fields on the wire, one after the other.
pub open spec fn encode_fields(fields: Seq<Seq<u8>>) -> Seq<u8>
    decreases fields.len(),
{
    if fields.len() == 0 {
        Seq::empty()
    } else {
        encode_field(fields[0]) + encode_fields(fields.drop_first())
    }
}

/// A frame without its magic bytes: what a reader sees once it has found the
/// frame's start.
pub open spec fn frame_body(message: MessageView) -> Seq<u8> {
    seq![VERSION, message.kind.code()] + be_bytes_u32(message.fields.len() as u32) + encode_fields(
        message.fields,
    ) + be_bytes_u32(message.checksum)
}

/// A whole frame.
pub open spec fn frame(message: MessageView) -> Seq<u8> {
    magic() + frame_body(message)
}

/// Reads `count` fields from `bytes`, starting at `at`. Gives the fields and
/// the position behind the last one, or `None` if the bytes end too early.
pub open spec fn parse_fields(bytes: Seq<u8>, at: int, count: nat) -> Option<(Seq<Seq<u8>>, int)>
    decreases count,
{
    if count == 0 {
        Some((Seq::empty(), at))
    } else if at + 4 > bytes.len() {
        None
    } else {
        let len = u32_from_be_bytes(bytes.subrange(at, at + 4)) as int;
        if at + 4 + len > bytes.len() {
            None
        } else {
            match parse_fields(bytes, at + 4 + len, (count - 1) as nat) {
                None => None,
                Some((rest, end)) => Some(
                    (seq![bytes.subrange(at + 4, at + 4 + len)] + rest, end),
                ),
            }
        }
    }
}

/// Reads one frame body from the front of `bytes` without judging its
/// checksum. Gives the message as the frame states it and the number of bytes
/// the frame takes.
pub open spec fn parse_spec(bytes: Seq<u8>) -> Result<(MessageView, nat), ProtocolError> {
    if bytes.len() < 1 {
        Err(ProtocolError::Truncated)
    } else if bytes[0] != VERSION {
        Err(ProtocolError::VersionMismatch)
    } else if bytes.len() < 6 {
        Err(ProtocolError::Truncated)
    } else {
        match parse_fields(bytes, 6, u32_from_be_bytes(bytes.subrange(2, 6)) as nat) {
            None => Err(ProtocolError::Truncated),
            Some((fields, end)) => if end + 4 > bytes.len() {
                Err(ProtocolError::Truncated)
            } else {
                Ok(
                    (
                        MessageView {
                            kind: MessageType::from_code(bytes[1]),
                            fields,
                            checksum: u32_from_be_bytes(bytes.subrange(end, end + 4)),
                        },
                        (end + 4) as nat,
                    ),
                )
            },
        }
    }
}

/// Judges a message by a checksum computed from its fields.
pub open spec fn verify_spec(message: MessageView, computed: u32) -> Result<
    MessageView,
    ProtocolError,
> {
    if message.checksum == computed {
        Ok(message)
    } else {
        Err(ProtocolError::ChecksumMismatch)
    }
}

/// Reads one frame body from the front of `bytes` and accepts it only if its
/// checksum is the checksum of its fields.
pub open spec fn decode_spec(bytes: Seq<u8>) -> Result<(MessageView, nat), ProtocolError> {
    match parse_spec(bytes) {
        Err(e) => Err(e),
        Ok((message, used)) => match verify_spec(message, crc32_of(flatten(message.fields))) {
            Err(e) => Err(e),
            Ok(_) => Ok((message, used)),
        },
    }
}

/// How many bytes are still missing before the `count` fields that start at
/// `at`, and the checksum behind them, are complete. The count covers only the
/// item that is cut short: a length, a field's bytes or the checksum.
pub open spec fn fields_shortfall(bytes: Seq<u8>, at: int, count: nat) -> nat
    decreases count,
{
    if at + 4 > bytes.len() {
        (at + 4 - bytes.len()) as nat
    } else if count == 0 {
        0
    } else {
        let len = u32_from_be_bytes(bytes.subrange(at, at + 4)) as int;
        if at + 4 + len > bytes.len() {
            (at + 4 + len - bytes.len()) as nat
        } else {
            fields_shortfall(bytes, at + 4 + len, (count - 1) as nat)
        }
    }
}

/// How many more bytes a reader must fetch before it can go on with the frame
/// body that starts `bytes`: zero once the frame is complete or is known to be
/// of another version.
pub open spec fn missing_spec(bytes: Seq<u8>) -> nat {
    if bytes.len() < 1 {
        1
    } else if bytes[0] != VERSION {
        0
    } else if bytes.len() < 6 {
        (6 - bytes.len()) as nat
    } else {
        fields_shortfall(bytes, 6, u32_from_be_bytes(bytes.subrange(2, 6)) as nat)
    }
}


/// Appending a field to the list appends its encoding to the bytes.
pub proof fn lemma_encode_fields_push(fields: Seq<Seq<u8>>, field: Seq<u8>)
    ensures
        encode_fields(fields.push(field)) == encode_fields(fields) + encode_field(field),
    decreases fields.len(),
{
    if fields.len() == 0 {
        assert(fields.push(field).drop_first() =~= Seq::<Seq<u8>>::empty());
        assert(encode_fields(Seq::<Seq<u8>>::empty()) =~= Seq::<u8>::empty());
        assert(encode_fields(fields.push(field)) =~= encode_field(field));
        assert(encode_fields(fields) + encode_field(field) =~= encode_field(field));
    } else {
        assert(fields.push(field).drop_first() =~= fields.drop_first().push(field));
        lemma_encode_fields_push(fields.drop_first(), field);
        assert(encode_fields(fields.push(field)) =~= encode_fields(fields) + encode_field(field));
    }
}

/// Fields that were written behind any prefix are read back as they were,
/// whatever follows them.
pub proof fn lemma_parse_encoded_fields(prefix: Seq<u8>, fields: Seq<Seq<u8>>, tail: Seq<u8>)
    requires
        forall|i: int| 0 <= i < fields.len() ==> (#[trigger] fields[i]).len() <= u32::MAX,
    ensures
        parse_fields(prefix + encode_fields(fields) + tail, prefix.len() as int, fields.len())
            == Some((fields, (prefix.len() + encode_fields(fields).len()) as int)),
    decreases fields.len(),
{
    let bytes = prefix + encode_fields(fields) + tail;
    let at = prefix.len() as int;
    if fields.len() == 0 {
        assert(fields =~= Seq::<Seq<u8>>::empty());
    } else {
        let first = fields[0];
        let rest = fields.drop_first();
        let len = first.len() as int;
        lemma_u32_be_round_trip(first.len() as u32);
        assert(bytes.subrange(at, at + 4) =~= be_bytes_u32(first.len() as u32));
        assert(bytes.subrange(at + 4, at + 4 + len) =~= first);
        let longer = prefix + encode_field(first);
        assert(longer + encode_fields(rest) + tail =~= bytes);
        assert forall|i: int| 0 <= i < rest.len() implies (#[trigger] rest[i]).len()
            <= u32::MAX by {
            assert(rest[i] == fields[i + 1]);
        }
        lemma_parse_encoded_fields(longer, rest, tail);
        assert(seq![first] + rest =~= fields);
    }
}

/// Reading a frame body that was written from a message gives the message
/// back, together with the length of the body, whatever follows the body.
pub proof fn lemma_parse_frame_body(message: MessageView, tail: Seq<u8>)
    requires
        message.fits(),
    ensures
        parse_spec(frame_body(message) + tail) == Ok::<(MessageView, nat), ProtocolError>(
            (message, frame_body(message).len()),
        ),
{
    let head = seq![VERSION, message.kind.code()] + be_bytes_u32(message.fields.len() as u32);
    let trailer = be_bytes_u32(message.checksum);
    let bytes = frame_body(message) + tail;
    lemma_u32_be_round_trip(message.fields.len() as u32);
    lemma_u32_be_round_trip(message.checksum);
    lemma_kind_code_round_trip(message.kind);
    assert(bytes.subrange(2, 6) =~= be_bytes_u32(message.fields.len() as u32));
    assert(head + encode_fields(message.fields) + (trailer + tail) =~= bytes);
    lemma_parse_encoded_fields(head, message.fields, trailer + tail);
    let end = (head.len() + encode_fields(message.fields).len()) as int;
    assert(bytes.subrange(end, end + 4) =~= trailer);
}

/// Writing and reading back: a message that fits a frame is decoded from its
/// own frame body exactly when its checksum is the checksum of its fields; a
/// frame whose checksum is any other number is refused for that.
pub proof fn lemma_decode_frame_body(message: MessageView, tail: Seq<u8>)
    requires
        message.fits(),
    ensures
        decode_spec(frame_body(message) + tail) == if message.intact() {
            Ok::<(MessageView, nat), ProtocolError>((message, frame_body(message).len()))
        } else {
            Err::<(MessageView, nat), ProtocolError>(ProtocolError::ChecksumMismatch)
        },
{
    lemma_parse_frame_body(message, tail);
}

/// A frame opens with the magic bytes and goes on with the frame body.
pub proof fn lemma_frame_parts(message: MessageView)
    ensures
        frame(message).subrange(0, 2) == magic(),
        frame(message).skip(2) == frame_body(message),
{
    assert(frame(message).subrange(0, 2) =~= magic());
    assert(frame(message).skip(2) =~= frame_body(message));
}

/// Damage to field bytes that leaves every length and the trailer alone is
/// caught exactly when the damaged bytes have another checksum than the
/// trailer states; damage that keeps the checksum goes through and yields the
/// damaged fields.
pub proof fn lemma_damaged_fields(message: MessageView, damaged: Seq<Seq<u8>>)
    requires
        message.fits(),
        message.intact(),
        damaged.len() == message.fields.len(),
        forall|i: int| 0 <= i < damaged.len() ==> (#[trigger] damaged[i]).len() == message.fields[i].len(),
    ensures
        decode_spec(
            frame_body(
                MessageView { kind: message.kind, fields: damaged, checksum: message.checksum },
            ),
        ) is Err <==> crc32_of(flatten(damaged)) != crc32_of(flatten(message.fields)),
        decode_spec(
            frame_body(
                MessageView { kind: message.kind, fields: damaged, checksum: message.checksum },
            ),
        ) is Err ==> decode_spec(
            frame_body(
                MessageView { kind: message.kind, fields: damaged, checksum: message.checksum },
            ),
        ) == Err::<(MessageView, nat), ProtocolError>(ProtocolError::ChecksumMismatch),
{
    let changed = MessageView { kind: message.kind, fields: damaged, checksum: message.checksum };
    assert forall|i: int| 0 <= i < damaged.len() implies (#[trigger] damaged[i]).len()
        <= u32::MAX by {
        assert(message.fields[i].len() <= u32::MAX);
    }
    lemma_decode_frame_body(changed, Seq::empty());
    assert(frame_body(changed) + Seq::<u8>::empty() =~= frame_body(changed));
}

/// Nothing is missing exactly when the fields and the checksum behind them
/// can be read.
pub proof fn lemma_fields_shortfall(bytes: Seq<u8>, at: int, count: nat)
    requires
        0 <= at,
    ensures
        fields_shortfall(bytes, at, count) == 0 <==> (parse_fields(bytes, at, count) matches Some(
            (_, end),
        ) && end + 4 <= bytes.len()),
    decreases count,
{
    if count > 0 && at + 4 <= bytes.len() {
        let len = u32_from_be_bytes(bytes.subrange(at, at + 4)) as int;
        if at + 4 + len <= bytes.len() {
            lemma_fields_shortfall(bytes, at + 4 + len, (count - 1) as nat);
        }
    }
}

/// A reader is told to fetch more exactly when the bytes it holds end before
/// the frame does.
pub proof fn lemma_missing_iff_truncated(bytes: Seq<u8>)
    ensures
        missing_spec(bytes) > 0 <==> parse_spec(bytes) == Err::<(MessageView, nat), ProtocolError>(
            ProtocolError::Truncated,
        ),
{
    if bytes.len() >= 6 && bytes[0] == VERSION {
        lemma_fields_shortfall(bytes, 6, u32_from_be_bytes(bytes.subrange(2, 6)) as nat);
    }
}

/// While a reader holds less than the fields and the checksum behind them,
/// it is told to fetch more, and never more than they still have.
pub proof fn lemma_shortfall_within_frame(
    prefix: Seq<u8>,
    fields: Seq<Seq<u8>>,
    rest: Seq<u8>,
    held: int,
)
    requires
        forall|i: int| 0 <= i < fields.len() ==> (#[trigger] fields[i]).len() <= u32::MAX,
        rest.len() >= 4,
        prefix.len() <= held < prefix.len() + encode_fields(fields).len() + 4,
    ensures
        0 < fields_shortfall(
            (prefix + encode_fields(fields) + rest).take(held),
            prefix.len() as int,
            fields.len(),
        ) <= prefix.len() + encode_fields(fields).len() + 4 - held,
    decreases fields.len(),
{
    let whole = prefix + encode_fields(fields) + rest;
    let bytes = whole.take(held);
    let at = prefix.len() as int;
    if at + 4 > held {
        if fields.len() > 0 {
            lemma_u32_be_round_trip(fields[0].len() as u32);
        }
    } else if fields.len() == 0 {
    } else {
        let first = fields[0];
        let others = fields.drop_first();
        let len = first.len() as int;
        lemma_u32_be_round_trip(first.len() as u32);
        assert(bytes.subrange(at, at + 4) =~= be_bytes_u32(first.len() as u32));
        if at + 4 + len <= held {
            let longer = prefix + encode_field(first);
            assert(longer + encode_fields(others) + rest =~= whole);
            assert forall|i: int| 0 <= i < others.len() implies (#[trigger] others[i]).len()
                <= u32::MAX by {
                assert(others[i] == fields[i + 1]);
            }
            lemma_shortfall_within_frame(longer, others, rest, held);
        }
    }
}

/// A reader that holds a proper part of a frame body is told to fetch more,
/// and never more than the frame still has: reading as `missing` says, it
/// ends up with the frame body and not a byte of what follows.
pub proof fn lemma_missing_within_frame(message: MessageView, tail: Seq<u8>, held: int)
    requires
        message.fits(),
        0 <= held < frame_body(message).len(),
    ensures
        0 < missing_spec((frame_body(message) + tail).take(held)) <= frame_body(message).len()
            - held,
        missing_spec(frame_body(message)) == 0,
{
    let head = seq![VERSION, message.kind.code()] + be_bytes_u32(message.fields.len() as u32);
    let rest = be_bytes_u32(message.checksum) + tail;
    let whole = frame_body(message) + tail;
    let bytes = whole.take(held);
    lemma_u32_be_round_trip(message.fields.len() as u32);
    lemma_u32_be_round_trip(message.checksum);
    assert(head + encode_fields(message.fields) + rest =~= whole);
    if held >= 6 {
        assert(bytes.subrange(2, 6) =~= be_bytes_u32(message.fields.len() as u32));
        lemma_shortfall_within_frame(head, message.fields, rest, held);
    }
    lemma_parse_frame_body(message, Seq::empty());
    assert(frame_body(message) + Seq::<u8>::empty() =~= frame_body(message));
    lemma_missing_iff_truncated(frame_body(message));
}

impl Message {
    /// Whether two bytes are the magic constant that opens a frame.
    pub fn has_header_start(bytes: &[u8]) -> (found: bool)
        ensures
            found == (bytes@ == magic()),
    {
        let found = bytes.len() == 2 && bytes[0] == (HEADER_START / 0x100) as u8 && bytes[1] == (
        HEADER_START % 0x100) as u8;
        proof {
            if found {
                assert(bytes@ =~= magic());
            }
        }
        found
    }

    /// The frame of the message: always the same bytes for the same message,
    /// fields in their order.
    pub fn encode(&self) -> (bytes: Vec<u8>)
        ensures
            bytes@ == frame(self@),
            self@.fits(),
            bytes@.subrange(0, 2) == magic(),
            self@.intact() ==> decode_spec(bytes@.skip(2)) == Ok::<
                (MessageView, nat),
                ProtocolError,
            >((self@, (bytes@.len() - 2) as nat)),
            !self@.intact() ==> decode_spec(bytes@.skip(2)) == Err::<
                (MessageView, nat),
                ProtocolError,
            >(ProtocolError::ChecksumMismatch),
    {
        let payload = self.payload();
        let count = payload.len();
        let mut bytes: Vec<u8> = Vec::new();
        bytes.push((HEADER_START / 0x100) as u8);
        bytes.push((HEADER_START % 0x100) as u8);
        bytes.push(self.version());
        bytes.push(self.message_type().to_byte());
        push_be_u32(&mut bytes, payload.count());
        let ghost head = bytes@;
        assert(head =~= magic() + seq![VERSION, self@.kind.code()] + be_bytes_u32(
            self@.fields.len() as u32,
        ));
        let mut i: usize = 0;
        assert(self@.fields.take(0) =~= Seq::<Seq<u8>>::empty());
        while i < count
            invariant
                i <= count,
                count == self@.fields.len(),
                payload@ == self@.fields,
                payload.wf(),
                self@.fits(),
                bytes@ == head + encode_fields(self@.fields.take(i as int)),
            decreases count - i,
        {
            let data = payload.field(i);
            push_be_u32(&mut bytes, payload.field_length(i));
            let ghost before = bytes@;
            let mut j: usize = 0;
            while j < data.len()
                invariant
                    j <= data@.len(),
                    bytes@ == before + data@.take(j as int),
                decreases data@.len() - j,
            {
                bytes.push(data[j]);
                assert(data@.take(j + 1) =~= data@.take(j as int).push(data@[j as int]));
                j += 1;
            }
            proof {
                assert(data@.take(j as int) =~= data@);
                lemma_encode_fields_push(self@.fields.take(i as int), data@);
                assert(self@.fields.take(i as int).push(data@) =~= self@.fields.take(i + 1));
                assert(bytes@ =~= head + encode_fields(self@.fields.take(i + 1)));
            }
            i += 1;
        }
        assert(self@.fields.take(i as int) =~= self@.fields);
        push_be_u32(&mut bytes, self.checksum());
        proof {
            assert(bytes@ =~= frame(self@));
            lemma_frame_parts(self@);
            lemma_decode_frame_body(self@, Seq::empty());
            assert(frame_body(self@) + Seq::<u8>::empty() =~= frame_body(self@));
        }
        bytes
    }

    /// Reads one frame body from the front of `bytes` and takes the checksum
    /// as the frame states it. Gives the message and the number of bytes the
    /// frame takes.
    pub fn parse(bytes: &[u8]) -> (outcome: Result<(Message, usize), ProtocolError>)
        ensures
            match outcome {
                Ok((message, used)) => parse_spec(bytes@) == Ok::<
                    (MessageView, nat),
                    ProtocolError,
                >((message@, used as nat)) && message@.fits(),
                Err(e) => parse_spec(bytes@) == Err::<(MessageView, nat), ProtocolError>(e),
            },
    {
        let total = bytes.len();
        if total < 1 {
            return Err(ProtocolError::Truncated);
        }
        if bytes[0] != VERSION {
            return Err(ProtocolError::VersionMismatch);
        }
        if total < 6 {
            return Err(ProtocolError::Truncated);
        }
        let kind = MessageType::from(bytes[1]);
        let count = read_be_u32(bytes, 2);
        let mut builder = MessageBuilder::new(kind);
        let mut at: usize = 6;
        let mut done: u32 = 0;
        assert(Seq::<Seq<u8>>::empty() + Seq::<Seq<u8>>::empty() =~= Seq::<Seq<u8>>::empty());
        while done < count
            invariant
                done <= count,
                6 <= at <= total,
                total == bytes@.len(),
                builder.kind() == kind,
                builder.fields().len() == done,
                bytes@[0] == VERSION,
                kind == MessageType::from_code(bytes@[1]),
                count == u32_from_be_bytes(bytes@.subrange(2, 6)),
                parse_fields(bytes@, 6, count as nat) == match parse_fields(
                    bytes@,
                    at as int,
                    (count - done) as nat,
                ) {
                    None => None::<(Seq<Seq<u8>>, int)>,
                    Some((rest, end)) => Some((builder.fields() + rest, end)),
                },
            decreases count - done,
        {
            if total - at < 4 {
                return Err(ProtocolError::Truncated);
            }
            let len = read_be_u32(bytes, at) as usize;
            if total - at - 4 < len {
                return Err(ProtocolError::Truncated);
            }
            let data = slice_to_vec(slice_subrange(bytes, at + 4, at + 4 + len));
            let ghost before = builder.fields();
            builder = builder.with_field(data);
            proof {
                let field = bytes@.subrange(at + 4, at + 4 + len);
                match parse_fields(bytes@, at + 4 + len, (count - done - 1) as nat) {
                    None => {},
                    Some((rest, end)) => {
                        assert(before + (seq![field] + rest) =~= before.push(field) + rest);
                    },
                }
            }
            at = at + 4 + len;
            done = done + 1;
        }
        assert(builder.fields() + Seq::<Seq<u8>>::empty() =~= builder.fields());
        if total - at < 4 {
            return Err(ProtocolError::Truncated);
        }
        let checksum = read_be_u32(bytes, at);
        Ok((builder.seal(checksum), at + 4))
    }

    /// Compares the checksum the message carries with one computed from its
    /// fields: the message passes if they agree and is refused with
    /// `ChecksumMismatch` if not.
    pub fn verify(self, computed: u32) -> (outcome: Result<Message, ProtocolError>)
        ensures
            match outcome {
                Ok(message) => verify_spec(self@, computed) == Ok::<MessageView, ProtocolError>(
                    message@,
                ) && message@.fits(),
                Err(e) => verify_spec(self@, computed) == Err::<MessageView, ProtocolError>(e),
            },
    {
        if self.checksum() != computed {
            Err(ProtocolError::ChecksumMismatch)
        } else {
            let _ = self.payload();
            Ok(self)
        }
    }

    /// Reads one frame body from the front of `bytes`: the version must be
    /// this protocol's, an unknown kind byte reads as `Empty`, and the
    /// checksum must be the checksum of the fields that were read. Gives the
    /// message and the number of bytes the frame takes.
    pub fn decode(bytes: &[u8]) -> (outcome: Result<(Message, usize), ProtocolError>)
        ensures
            match outcome {
                Ok((message, used)) => decode_spec(bytes@) == Ok::<
                    (MessageView, nat),
                    ProtocolError,
                >((message@, used as nat)) && message@.fits() && message@.intact(),
                Err(e) => decode_spec(bytes@) == Err::<(MessageView, nat), ProtocolError>(e),
            },
    {
        match Message::parse(bytes) {
            Err(e) => Err(e),
            Ok((message, used)) => {
                let computed = message.checksum_of_fields();
                match message.verify(computed) {
                    Err(e) => Err(e),
                    Ok(message) => Ok((message, used)),
                }
            },
        }
    }

    /// How many more bytes must be fetched before the frame body that starts
    /// `bytes` can be read: zero once the frame is complete or its version
    /// byte is wrong.
    pub fn missing(bytes: &[u8]) -> (shortfall: usize)
        ensures
            shortfall == missing_spec(bytes@),
    {
        let total = bytes.len();
        if total < 1 {
            return 1;
        }
        if bytes[0] != VERSION {
            return 0;
        }
        if total < 6 {
            return 6 - total;
        }
        let count = read_be_u32(bytes, 2);
        let mut at: usize = 6;
        let mut done: u32 = 0;
        while done < count
            invariant
                done <= count,
                6 <= at <= total,
                total == bytes@.len(),
                bytes@[0] == VERSION,
                count == u32_from_be_bytes(bytes@.subrange(2, 6)),
                fields_shortfall(bytes@, 6, count as nat) == fields_shortfall(
                    bytes@,
                    at as int,
                    (count - done) as nat,
                ),
            decreases count - done,
        {
            if total - at < 4 {
                return 4 - (total - at);
            }
            let len = read_be_u32(bytes, at) as usize;
            if total - at - 4 < len {
                return len - (total - at - 4);
            }
            at = at + 4 + len;
            done = done + 1;
        }
        if total - at < 4 {
            4 - (total - at)
        } else {
            0
        }
    }
}

} // verus!
