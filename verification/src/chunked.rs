//! A body in chunked transfer coding, and the decoder that reads it.

use vstd::prelude::*;
use vstd::slice::slice_subrange;
use crate::error::{Fault, IoError, IoErrorKind};
use crate::read::{Framed, Read, Supply};
use crate::stream::{DeadlineStream, Stream};

verus! {

/// What one read of a fresh chunked decoder makes of a byte sequence, into
/// a buffer with `room` bytes: the bytes that it delivers, the number of
/// bytes that it leaves unread at the end of the input, whether it stops
/// inside a chunk, and the text of its error, if it ends with one.
pub uninterp spec fn chunk_read(bytes: Seq<u8>, room: nat) -> (Seq<u8>, nat, bool, Option<Seq<char>>);

/// What one read of the decoder gave: the number of bytes delivered or the
/// text of the error, the number of input bytes left unread, and whether
/// the decoder stopped inside a chunk.
struct ChunkStep {
    read: Result<usize, String>,
    unread: usize,
    open: bool,
}

/// Makes a `chunked_transfer::Decoder` over the bytes and reads from it
/// once, with the decoder's `std::io::Read::read`, into `buf`. What is left
/// unread is the length of `Decoder::get_ref`; the decoder stands inside a
/// chunk where `Decoder::remaining_chunks_size` is some number.
///
/// The result is named, not described. The decoder copies what it delivers
/// out of its input into the front of the buffer, so the bytes delivered
/// fit the buffer and, with the unread input, are no longer than the input.
#[verifier::external_body]
fn read_chunk(bytes: &[u8], buf: &mut [u8]) -> (r: ChunkStep)
    ensures
        final(buf)@.len() == old(buf)@.len(),
        match r.read {
            Ok(n) => {
                &&& n <= old(buf)@.len()
                &&& n + r.unread <= bytes@.len()
                &&& final(buf)@.take(n as int) == chunk_read(bytes@, old(buf)@.len()).0
                &&& chunk_read(bytes@, old(buf)@.len()).3 is None
            },
            Err(message) => chunk_read(bytes@, old(buf)@.len()).3 == Some(message@),
        },
        r.unread == chunk_read(bytes@, old(buf)@.len()).1,
        r.unread <= bytes@.len(),
        r.open == chunk_read(bytes@, old(buf)@.len()).2,
{
    let mut decoder = chunked_transfer::Decoder::new(bytes);
    let read = match std::io::Read::read(&mut decoder, buf) {
        Ok(n) => Ok(n),
        Err(error) => Err(error.to_string()),
    };
    ChunkStep { read, unread: decoder.get_ref().len(), open: decoder.remaining_chunks_size().is_some() }
}

/// A decoded chunked body: the payload, the number of bytes that follow
/// the body, and the text of the error that ended the decoding, if one did.
pub struct Dechunked {
    pub payload: Seq<u8>,
    pub unread: nat,
    pub fault: Option<Seq<char>>,
}

/// The body that the decoder finds when it reads chunk after chunk, each
/// into a buffer with `room` bytes. The decoding ends with the decoder's
/// error, with a read that delivers nothing, or inside a chunk that the
/// input cuts short.
pub open spec fn dechunked_with(bytes: Seq<u8>, room: nat) -> Dechunked
    decreases bytes.len(),
{
    let step = chunk_read(bytes, room);
    match step.3 {
        Some(message) => Dechunked { payload: Seq::empty(), unread: step.1, fault: Some(message) },
        None => {
            if step.0.len() == 0 || step.2 || step.1 >= bytes.len() {
                Dechunked { payload: step.0, unread: step.1, fault: None }
            } else {
                let tail = dechunked_with(bytes.skip(bytes.len() - step.1), room);
                Dechunked {
                    payload: step.0 + tail.payload,
                    unread: tail.unread,
                    fault: tail.fault,
                }
            }
        },
    }
}

/// The chunked body that a byte sequence starts with. Each chunk is read
/// into a buffer that takes the whole input.
pub open spec fn dechunked(bytes: Seq<u8>) -> Dechunked {
    dechunked_with(bytes, bytes.len())
}

/// The payload of a chunked body.
pub open spec fn chunked_payload(bytes: Seq<u8>) -> Seq<u8> {
    dechunked(bytes).payload
}

/// The number of bytes that follow a chunked body.
pub open spec fn chunked_unread(bytes: Seq<u8>) -> nat {
    dechunked(bytes).unread
}

/// The error of a chunked body that does not decode: `InvalidInput`, with
/// the decoder's text.
pub open spec fn chunked_fault(bytes: Seq<u8>) -> Option<Fault> {
    match dechunked(bytes).fault {
        Some(message) => Some(Fault { kind: IoErrorKind::InvalidInput, message }),
        None => None,
    }
}

/// A decoded chunked body, as it is held in memory.
pub struct Decoded {
    pub payload: Vec<u8>,
    pub unread: usize,
    pub fault: Option<String>,
}

/// The view of an optional text.
pub open spec fn message_of(text: Option<String>) -> Option<Seq<char>> {
    match text {
        Some(text) => Some(text@),
        None => None,
    }
}

/// Decodes the chunked body that `bytes` start with.
pub fn decode(bytes: &[u8]) -> (r: Decoded)
    ensures
        r.payload@ == dechunked(bytes@).payload,
        r.unread == dechunked(bytes@).unread,
        message_of(r.fault) == dechunked(bytes@).fault,
        r.unread <= bytes@.len(),
{
    let total = bytes.len();
    let mut scratch: Vec<u8> = vec![0u8; total];
    let mut payload: Vec<u8> = Vec::new();
    let mut start: usize = 0;
    let ghost whole = dechunked_with(bytes@, total as nat);
    assert(bytes@.skip(0) =~= bytes@);
    assert(payload@ + whole.payload =~= whole.payload);
    loop
        invariant
            total == bytes@.len(),
            scratch@.len() == total,
            start <= total,
            whole == dechunked_with(bytes@, total as nat),
            whole.payload == payload@ + dechunked_with(bytes@.skip(start as int), total as nat).payload,
            whole.unread == dechunked_with(bytes@.skip(start as int), total as nat).unread,
            whole.fault == dechunked_with(bytes@.skip(start as int), total as nat).fault,
        decreases total - start,
    {
        let ghost rest = bytes@.skip(start as int);
        let ghost before = payload@;
        let step = read_chunk(slice_subrange(bytes, start, total), scratch.as_mut_slice());
        match step.read {
            Err(message) => {
                assert(before + Seq::<u8>::empty() =~= before);
                return Decoded { payload, unread: step.unread, fault: Some(message) };
            },
            Ok(n) => {
                payload.extend_from_slice(slice_subrange(scratch.as_slice(), 0, n));
                let ghost data = chunk_read(rest, total as nat).0;
                assert(payload@ =~= before + data);
                if n == 0 || step.open || step.unread >= total - start {
                    return Decoded { payload, unread: step.unread, fault: None };
                }
                proof {
                    let tail = dechunked_with(rest.skip(rest.len() - step.unread), total as nat);
                    assert(rest.skip(rest.len() - step.unread) =~= bytes@.skip(total - step.unread));
                    assert(before + (data + tail.payload) =~= (before + data) + tail.payload);
                }
                start = total - step.unread;
            },
        }
    }
}

/// What the reader of the chunked body on `source` will deliver, and what
/// it leaves of the connection.
pub open spec fn chunked_supply(source: DeadlineStream) -> Supply {
    let bytes = source.remaining();
    Supply {
        pending: chunked_payload(bytes),
        ending: chunked_fault(bytes),
        deadline: source.deadline(),
        rest: bytes.skip(bytes.len() - chunked_unread(bytes)),
        sent: source.stream().written(),
        owner: None,
        returned: None,
    }
}

/// The error of a body that does not decode: `InvalidInput`, with the
/// decoder's message.
fn decoding_fault(message: Option<String>) -> (fault: Option<IoError>)
    ensures
        match message {
            Some(text) => fault matches Some(e) && e@ == (Fault {
                kind: IoErrorKind::InvalidInput,
                message: text@,
            }),
            None => fault is None,
        },
{
    match message {
        Some(message) => Some(IoError { kind: IoErrorKind::InvalidInput, message }),
        None => None,
    }
}

/// A reader that delivers the payload of a chunked body.
///
/// The body is decoded when the reader is made, and nothing is reported
/// then: a body that does not decode delivers what was decoded and then
/// reports `InvalidInput`. Every read is subject to the deadline of the
/// stream.
#[derive(Debug)]
pub struct ChunkedRead {
    source: DeadlineStream,
    payload: Vec<u8>,
    served: usize,
    fault: Option<IoError>,
}

impl ChunkedRead {
    /// A reader of the chunked body that `source` starts with.
    pub fn new(source: DeadlineStream) -> (r: ChunkedRead)
        ensures
            r.supply() == chunked_supply(source),
    {
        let mut source = source;
        let decoded = decode(source.buffered());
        let used = source.available() - decoded.unread;
        source.consume(used);
        assert(decoded.payload@.skip(0) =~= decoded.payload@);
        ChunkedRead {
            source,
            payload: decoded.payload,
            served: 0,
            fault: decoding_fault(decoded.fault),
        }
    }

    /// A reader of a body that has been decoded already: `payload` is what
    /// the decoder delivered, `fault` the message of the error that ended
    /// the decoding, if one did, and `source` stands behind the body.
    pub fn decoded(source: DeadlineStream, payload: Vec<u8>, fault: Option<String>) -> (r:
        ChunkedRead)
        ensures
            r.supply() == (Supply {
                pending: payload@,
                ending: match fault {
                    Some(message) => Some(
                        Fault { kind: IoErrorKind::InvalidInput, message: message@ },
                    ),
                    None => None,
                },
                deadline: source.deadline(),
                rest: source.remaining(),
                sent: source.stream().written(),
                owner: None,
                returned: None,
            }),
    {
        assert(payload@.skip(0) =~= payload@);
        ChunkedRead { source, payload, served: 0, fault: decoding_fault(fault) }
    }

    /// The bytes of the payload that have not been delivered yet.
    pub closed spec fn pending(&self) -> Seq<u8> {
        if self.served <= self.payload@.len() {
            self.payload@.skip(self.served as int)
        } else {
            Seq::empty()
        }
    }

    /// The error that follows the payload, if the body does not decode.
    pub closed spec fn ending(&self) -> Option<Fault> {
        match self.fault {
            Some(e) => Some(e@),
            None => None,
        }
    }

    /// The stream underneath, which stands behind the body.
    pub closed spec fn source(&self) -> DeadlineStream {
        self.source
    }
}

impl Read for ChunkedRead {
    open spec fn supply(&self) -> Supply {
        Supply {
            pending: self.pending(),
            ending: self.ending(),
            deadline: self.source().deadline(),
            rest: self.source().remaining(),
            sent: self.source().stream().written(),
            owner: None,
            returned: None,
        }
    }

    fn is_at_end(&self) -> (r: bool) {
        self.served >= self.payload.len()
    }

    fn read_at(&mut self, buf: &mut [u8], now: u64) -> (r: Result<usize, IoError>)
        ensures
            final(self).source() == old(self).source(),
    {
        if let Err(e) = self.source.check_deadline_at(now) {
            return Err(e);
        }
        let total = self.payload.len();
        if self.served >= total {
            return match &self.fault {
                Some(e) => Err(e.duplicate()),
                None => Ok(0),
            };
        }
        let left = total - self.served;
        let n = if buf.len() < left {
            buf.len()
        } else {
            left
        };
        let ghost pending = self.pending();
        let mut i: usize = 0;
        assert(buf@ =~= pending.take(0) + old(buf)@.skip(0));
        while i < n
            invariant
                i <= n,
                n <= buf@.len(),
                buf@.len() == old(buf)@.len(),
                self.served + n <= self.payload@.len() <= usize::MAX,
                pending == self.payload@.skip(self.served as int),
                buf@ == pending.take(i as int) + old(buf)@.skip(i as int),
            decreases n - i,
        {
            buf[i] = self.payload[self.served + i];
            assert(buf@ =~= pending.take(i + 1) + old(buf)@.skip(i + 1));
            i = i + 1;
        }
        self.served = self.served + n;
        assert(self.pending() =~= pending.skip(n as int));
        Ok(n)
    }
}

impl Framed for ChunkedRead {
    proof fn keeps_connection(&self) {
    }

    fn into_stream(self) -> (s: Stream)
        ensures
            s == self.source().stream(),
    {
        self.source.into_stream()
    }
}

} // verus!
