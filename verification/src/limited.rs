//! A body whose length the response announced.

use vstd::prelude::*;
use crate::error::{Fault, IoError, IoErrorKind};
use crate::read::{
    read_outcome_at, read_to_end, read_to_end_at, read_to_end_outcome_at, smaller, Framed, Read,
    Supply,
};
use crate::stream::{expired, DeadlineStream, Stream};

verus! {

/// Limits a reader to a content size, as set by a `Content-Length` header.
///
/// The reader delivers the announced number of bytes and then reports the
/// end, whatever follows underneath and whatever the deadline. A reader
/// underneath that ends cleanly before that is a truncated body: an
/// `InvalidData` error, never a clean end.
#[derive(Debug)]
pub struct LimitedRead<R> {
    reader: R,
    limit: usize,
    position: usize,
}

/// What the error of a truncated body says.
pub open spec fn truncated_message() -> Seq<char> {
    "response body closed before all bytes were read"@
}

/// The error of a truncated body.
pub open spec fn truncated_fault() -> Fault {
    Fault { kind: IoErrorKind::InvalidData, message: truncated_message() }
}

impl<R> LimitedRead<R> {
    /// A reader of the first `limit` bytes of `reader`.
    pub fn new(reader: R, limit: usize) -> (r: LimitedRead<R>)
        ensures
            r.reader() == reader,
            r.limit() == limit,
            r.position() == 0,
    {
        LimitedRead { reader, limit, position: 0 }
    }

    /// The reader underneath.
    pub closed spec fn reader(&self) -> R {
        self.reader
    }

    /// The announced length of the body.
    pub closed spec fn limit(&self) -> usize {
        self.limit
    }

    /// The number of bytes delivered so far.
    pub closed spec fn position(&self) -> usize {
        self.position
    }

    /// The number of bytes that are still owed.
    pub open spec fn left(&self) -> int {
        if self.position() <= self.limit() {
            self.limit() - self.position()
        } else {
            0
        }
    }
}

/// What a limited reader makes of the reader underneath when `left` bytes
/// are still owed: it delivers the owed bytes as far as they are pending
/// underneath; where fewer are pending, it ends with the error underneath,
/// or with the error of a truncated body where the reader underneath ends
/// cleanly. What it does not deliver stays behind the body. With nothing
/// owed it asks for no deadline.
pub open spec fn limited(inner: Supply, left: int) -> Supply {
    let delivered = smaller(left, inner.pending.len() as int);
    Supply {
        pending: inner.pending.take(delivered),
        ending: if inner.pending.len() >= left {
            None
        } else {
            match inner.ending {
                Some(fault) => Some(fault),
                None => Some(truncated_fault()),
            }
        },
        deadline: if left > 0 {
            inner.deadline
        } else {
            None
        },
        rest: inner.pending.skip(delivered) + inner.rest,
        sent: inner.sent,
        owner: None,
        returned: None,
    }
}

impl<R: Framed> LimitedRead<R> {
    /// Reads the body to its end, appending to `buf`. A body that is cut
    /// short gives `InvalidData`, never a clean end.
    pub fn read_to_end(&mut self, buf: &mut Vec<u8>) -> (r: Result<usize, IoError>)
        ensures
            exists|now: u64| #[trigger]
                read_to_end_outcome_at(
                    old(self).supply(),
                    final(self).supply(),
                    old(buf)@,
                    final(buf)@,
                    now,
                    r,
                ),
    {
        read_to_end(self, buf)
    }

    /// Reads the body to its end at the time `now`, appending to `buf`.
    pub fn read_to_end_at(&mut self, buf: &mut Vec<u8>, now: u64) -> (r: Result<usize, IoError>)
        ensures
            read_to_end_outcome_at(
                old(self).supply(),
                final(self).supply(),
                old(buf)@,
                final(buf)@,
                now,
                r,
            ),
    {
        read_to_end_at(self, buf, now)
    }
}

/// One read of `amount` bytes, seen from the stream and from the buffer.
proof fn lemma_limited_step(avail: Seq<u8>, buf: Seq<u8>, left: int, want: int, amount: int)
    requires
        left > 0,
        want == smaller(left, buf.len() as int),
        amount == smaller(want, avail.len() as int),
    ensures
        ({
            let d = smaller(left, avail.len() as int);
            let pending = avail.take(d);
            let after = smaller(left - amount, avail.len() - amount);
            &&& amount == smaller(buf.len() as int, pending.len() as int)
            &&& (avail.take(amount) + buf.subrange(0, want).skip(amount)) + buf.subrange(
                want,
                buf.len() as int,
            ) == pending.take(amount) + buf.skip(amount)
            &&& avail.skip(amount).take(after) == pending.skip(amount)
            &&& avail.skip(amount).skip(after) == avail.skip(d)
            &&& buf.subrange(0, want) + buf.subrange(want, buf.len() as int) == buf
        }),
{
    let d = smaller(left, avail.len() as int);
    let pending = avail.take(d);
    let after = smaller(left - amount, avail.len() - amount);
    assert((avail.take(amount) + buf.subrange(0, want).skip(amount)) + buf.subrange(
        want,
        buf.len() as int,
    ) =~= pending.take(amount) + buf.skip(amount));
    assert(avail.skip(amount).take(after) =~= pending.skip(amount));
    assert(avail.skip(amount).skip(after) =~= avail.skip(d));
    assert(buf.subrange(0, want) + buf.subrange(want, buf.len() as int) =~= buf);
}

impl<R: Framed> Read for LimitedRead<R> {
    open spec fn supply(&self) -> Supply {
        limited(self.reader().supply(), self.left())
    }

    fn is_at_end(&self) -> (r: bool) {
        self.position >= self.limit || self.reader.is_at_end()
    }

    fn read_at(&mut self, buf: &mut [u8], now: u64) -> (r: Result<usize, IoError>)
        ensures
            final(self).limit() == old(self).limit(),
            old(self).position() >= old(self).limit() ==> {
                &&& r == Ok::<usize, IoError>(0)
                &&& *final(self) == *old(self)
                &&& final(buf)@ == old(buf)@
            },
            match r {
                Ok(n) => final(self).position() == old(self).position() + n,
                Err(_) => final(self).position() == old(self).position(),
            },
    {
        let ghost inner = self.reader.supply();
        let ghost avail = inner.pending;
        if self.position >= self.limit {
            // Everything has been delivered: the end, whatever the reader
            // underneath would give.
            assert(avail.skip(0) + inner.rest =~= avail.skip(0) + inner.rest);
            return Ok(0);
        }
        let left = self.limit - self.position;
        let want = if left < buf.len() {
            left
        } else {
            buf.len()
        };
        proof {
            self.reader.keeps_connection();
        }
        let (front, back) = buf.split_at_mut(want);
        let outcome = self.reader.read_at(front, now);
        match outcome {
            Err(e) => {
                assert(old(buf)@.subrange(0, want as int) + old(buf)@.subrange(
                    want as int,
                    old(buf)@.len() as int,
                ) =~= old(buf)@);
                Err(e)
            },
            Ok(amount) => {
                proof {
                    lemma_limited_step(avail, old(buf)@, left as int, want as int, amount as int);
                }
                if amount == 0 && self.reader.is_at_end() {
                    // The reader underneath has ended, and bytes are still
                    // owed.
                    assert(avail.skip(0) =~= avail);
                    assert(avail.take(0) + old(buf)@.subrange(0, want as int).skip(0) =~= old(
                        buf,
                    )@.subrange(0, want as int));
                    return Err(
                        IoError::new(
                            IoErrorKind::InvalidData,
                            "response body closed before all bytes were read",
                        ),
                    );
                }
                self.position = self.position + amount;
                proof {
                    let d = smaller(left as int, avail.len() as int);
                    let after = smaller(left - amount, avail.len() - amount);
                    assert(avail.skip(amount as int).skip(after) + inner.rest =~= avail.skip(d)
                        + inner.rest);
                }
                Ok(amount)
            },
        }
    }
}

impl Framed for LimitedRead<DeadlineStream> {
    proof fn keeps_connection(&self) {
    }

    fn into_stream(self) -> (s: Stream)
        ensures
            s == self.reader().stream(),
    {
        proof {
            let held = self.reader().remaining();
            assert(held.skip(0) + Seq::<u8>::empty() =~= held);
        }
        self.reader.into_stream()
    }
}

/// A truncated body is never a clean end. Where the stream holds fewer
/// bytes than are owed, a read before the deadline that finds the stream at
/// its end reports `InvalidData` and changes nothing, and so does every
/// read after it.
pub proof fn truncated_read_is_an_error(
    reader: LimitedRead<DeadlineStream>,
    after: LimitedRead<DeadlineStream>,
    buf_before: Seq<u8>,
    buf_after: Seq<u8>,
    now: u64,
    r: Result<usize, IoError>,
)
    requires
        reader.position() < reader.limit(),
        reader.reader().remaining().len() == 0,
        !expired(reader.reader().deadline(), now),
        read_outcome_at(reader.supply(), after.supply(), buf_before, buf_after, now, r),
    ensures
        r matches Err(e) && e@ == truncated_fault(),
        buf_after == buf_before,
        after.supply().pending == reader.supply().pending,
        after.supply().ending == Some(truncated_fault()),
{
}

/// A truncated body is never read to a clean end. Where the stream holds
/// fewer bytes than are owed, reading to the end before the deadline appends
/// every byte that the stream held and reports `InvalidData`; at the
/// deadline and after it, it reports the timeout. It never reports success.
pub proof fn truncated_body_is_an_error(
    reader: LimitedRead<DeadlineStream>,
    after: LimitedRead<DeadlineStream>,
    buf_before: Seq<u8>,
    buf_after: Seq<u8>,
    now: u64,
    r: Result<usize, IoError>,
)
    requires
        reader.reader().remaining().len() < reader.left(),
        read_to_end_outcome_at(reader.supply(), after.supply(), buf_before, buf_after, now, r),
    ensures
        r is Err,
        !expired(reader.reader().deadline(), now) ==> {
            &&& r matches Err(e)
            &&& e@ == truncated_fault()
            &&& buf_after == buf_before + reader.reader().remaining()
        },
{
    let held = reader.reader().remaining();
    assert(held.take(held.len() as int) =~= held);
}

/// A complete body is delivered exactly: where the stream holds the bytes
/// that are owed, reading to the end before the deadline appends the owed
/// bytes, no more, and reports their number. What follows them on the
/// stream is left there.
pub proof fn complete_body_is_delivered(
    reader: LimitedRead<DeadlineStream>,
    after: LimitedRead<DeadlineStream>,
    buf_before: Seq<u8>,
    buf_after: Seq<u8>,
    now: u64,
    r: Result<usize, IoError>,
)
    requires
        reader.left() <= reader.reader().remaining().len(),
        !expired(reader.reader().deadline(), now),
        read_to_end_outcome_at(reader.supply(), after.supply(), buf_before, buf_after, now, r),
    ensures
        r == Ok::<usize, IoError>(reader.left() as usize),
        buf_after == buf_before + reader.reader().remaining().take(reader.left()),
        after.supply().rest == reader.supply().rest,
{
}

impl From<LimitedRead<DeadlineStream>> for Stream {
    fn from(limited_read: LimitedRead<DeadlineStream>) -> (s: Stream) {
        limited_read.into_stream()
    }
}

impl vstd::std_specs::convert::FromSpecImpl<LimitedRead<DeadlineStream>> for Stream {
    open spec fn obeys_from_spec() -> bool {
        true
    }

    open spec fn from_spec(limited_read: LimitedRead<DeadlineStream>) -> Stream {
        limited_read.reader().stream()
    }
}

} // verus!
