//! Reading a frame from a stream, piece by piece.
//!
//! A reader holds the bytes fetched so far and remembers how far into them
//! it has walked, so that each field's length is looked at once however many
//! pieces the frame arrives in.

use vstd::prelude::*;
use crate::bytes::{read_be_u32, u32_from_be_bytes};
use crate::protocol::codec::{
    decode_spec, fields_shortfall, missing_spec, parse_fields, ProtocolError,
};
use crate::protocol::message::{Message, MessageView, VERSION};

verus! {

/// Where a walk over `count` fields that starts at `from` ends, if the bytes
/// hold all of them.
pub open spec fn walk_end(bytes: Seq<u8>, from: int, count: nat) -> Option<int> {
    match parse_fields(bytes, from, count) {
        Some((_, end)) => Some(end),
        None => None,
    }
}

/// Fields that were read from some bytes are read the same from any bytes
/// that agree with them up to the end of the last field.
pub proof fn lemma_parse_fields_stable(
    bytes: Seq<u8>,
    longer: Seq<u8>,
    at: int,
    count: nat,
)
    requires
        0 <= at,
        parse_fields(bytes, at, count) is Some,
        bytes.len() <= longer.len(),
        longer.subrange(0, bytes.len() as int) == bytes,
    ensures
        parse_fields(longer, at, count) == parse_fields(bytes, at, count),
    decreases count,
{
    if count > 0 {
        let len = u32_from_be_bytes(bytes.subrange(at, at + 4)) as int;
        assert(longer.subrange(at, at + 4) =~= bytes.subrange(at, at + 4));
        assert(longer.subrange(at + 4, at + 4 + len) =~= bytes.subrange(at + 4, at + 4 + len));
        lemma_parse_fields_stable(bytes, longer, at + 4 + len, (count - 1) as nat);
    }
}

/// What is missing behind fields that have been walked is what is missing
/// altogether.
pub proof fn lemma_shortfall_resumes(bytes: Seq<u8>, from: int, done: nat, count: nat)
    requires
        0 <= from,
        done <= count,
        walk_end(bytes, from, done) is Some,
    ensures
        fields_shortfall(bytes, from, count) == fields_shortfall(
            bytes,
            walk_end(bytes, from, done)->0,
            (count - done) as nat,
        ),
        from <= walk_end(bytes, from, done)->0 <= bytes.len() || done == 0,
    decreases done,
{
    if done > 0 {
        let len = u32_from_be_bytes(bytes.subrange(from, from + 4)) as int;
        lemma_shortfall_resumes(bytes, from + 4 + len, (done - 1) as nat, (count - 1) as nat);
    }
}

/// Walking one more field extends a walk by that field.
pub proof fn lemma_walk_one_more(bytes: Seq<u8>, from: int, done: nat)
    requires
        0 <= from,
        walk_end(bytes, from, done) is Some,
        walk_end(bytes, walk_end(bytes, from, done)->0, 1) is Some,
    ensures
        walk_end(bytes, from, done + 1) == walk_end(bytes, walk_end(bytes, from, done)->0, 1),
    decreases done,
{
    reveal_with_fuel(parse_fields, 2);
    if done > 0 {
        let len = u32_from_be_bytes(bytes.subrange(from, from + 4)) as int;
        lemma_walk_one_more(bytes, from + 4 + len, (done - 1) as nat);
    }
}

/// The bytes of one frame body as they arrive.
#[derive(Debug)]
pub struct FrameReader {
    held: Vec<u8>,
    at: usize,
    done: u32,
}

impl View for FrameReader {
    type V = Seq<u8>;

    /// The bytes held so far.
    closed spec fn view(&self) -> Seq<u8> {
        self.held@
    }
}

impl FrameReader {
    /// The reader has walked whole fields only, and only fields that the
    /// bytes it holds contain.
    pub closed spec fn wf(&self) -> bool {
        &&& 6 <= self.at
        &&& walk_end(self.held@, 6, self.done as nat) == Some(self.at as int)
        &&& self.done > 0 ==> self.held@.len() >= 6 && self.held@[0] == VERSION && self.done
            <= u32_from_be_bytes(self.held@.subrange(2, 6)) && self.at <= self.held@.len()
    }

    /// A reader that holds nothing yet.
    pub fn new() -> (reader: Self)
        ensures
            reader.wf(),
            reader@ == Seq::<u8>::empty(),
    {
        FrameReader { held: Vec::new(), at: 6, done: 0 }
    }

    /// How many bytes to fetch next: zero once the frame is complete or its
    /// version byte is wrong. The bytes held stay as they are.
    pub fn missing(&mut self) -> (shortfall: usize)
        requires
            old(self).wf(),
        ensures
            final(self).wf(),
            final(self)@ == old(self)@,
            shortfall == missing_spec(old(self)@),
    {
        let total = self.held.len();
        if total < 1 {
            return 1;
        }
        if self.held[0] != VERSION {
            return 0;
        }
        if total < 6 {
            return 6 - total;
        }
        let count = read_be_u32(self.held.as_slice(), 2);
        proof {
            lemma_shortfall_resumes(self.held@, 6, self.done as nat, count as nat);
        }
        while self.done < count
            invariant
                self.wf(),
                self.held@ == old(self)@,
                total == self.held@.len(),
                total >= 6,
                self.held@[0] == VERSION,
                count == u32_from_be_bytes(self.held@.subrange(2, 6)),
                self.done <= count,
                self.at <= total,
                fields_shortfall(self.held@, 6, count as nat) == fields_shortfall(
                    self.held@,
                    self.at as int,
                    (count - self.done) as nat,
                ),
            decreases count - self.done,
        {
            if total - self.at < 4 {
                return 4 - (total - self.at);
            }
            let len = read_be_u32(self.held.as_slice(), self.at) as usize;
            if total - self.at - 4 < len {
                return len - (total - self.at - 4);
            }
            proof {
                reveal_with_fuel(parse_fields, 2);
                lemma_walk_one_more(self.held@, 6, self.done as nat);
            }
            self.at = self.at + 4 + len;
            self.done = self.done + 1;
        }
        if total - self.at < 4 {
            4 - (total - self.at)
        } else {
            0
        }
    }

    /// Takes the bytes that were fetched.
    pub fn extend(&mut self, chunk: &[u8])
        requires
            old(self).wf(),
        ensures
            final(self).wf(),
            final(self)@ == old(self)@ + chunk@,
    {
        let mut i: usize = 0;
        while i < chunk.len()
            invariant
                i <= chunk@.len(),
                self.at == old(self).at,
                self.done == old(self).done,
                self.held@ == old(self).held@ + chunk@.take(i as int),
            decreases chunk@.len() - i,
        {
            self.held.push(chunk[i]);
            assert(chunk@.take(i + 1) =~= chunk@.take(i as int).push(chunk@[i as int]));
            i += 1;
        }
        proof {
            assert(chunk@.take(i as int) =~= chunk@);
            assert(self.held@.subrange(0, old(self).held@.len() as int) =~= old(self).held@);
            lemma_parse_fields_stable(old(self).held@, self.held@, 6, self.done as nat);
            if self.done > 0 {
                assert(self.held@.subrange(2, 6) =~= old(self).held@.subrange(2, 6));
            }
        }
    }

    /// Reads the frame body from the bytes held.
    pub fn finish(self) -> (outcome: Result<Message, ProtocolError>)
        ensures
            match outcome {
                Ok(message) => decode_spec(self@) matches Ok((view, _)) && view == message@
                    && message@.fits() && message@.intact(),
                Err(e) => decode_spec(self@) == Err::<(MessageView, nat), ProtocolError>(e),
            },
    {
        match Message::decode(self.held.as_slice()) {
            Ok((message, _)) => Ok(message),
            Err(e) => Err(e),
        }
    }
}

} // verus!
