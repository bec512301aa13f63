//! The capability that every body reader offers: read some bytes.

use vstd::prelude::*;
use vstd::slice::slice_subrange;
use crate::error::{Fault, IoError};
use crate::stream::{expired, now_millis, timeout_fault, Stream};
use crate::unit::Unit;

verus! {

/// The state of a reader, as far as reading can tell: what it will deliver,
/// and what becomes of its connection.
pub struct Supply {
    /// The bytes that reads will still deliver, in order.
    pub pending: Seq<u8>,
    /// How the data ends once `pending` is delivered: `None` is a clean end,
    /// `Some` the error that every further read reports.
    pub ending: Option<Fault>,
    /// The deadline that reads are subject to, if there is one.
    pub deadline: Option<u64>,
    /// The bytes that stand behind the body on the connection.
    pub rest: Seq<u8>,
    /// The bytes that were written to the connection.
    pub sent: Seq<u8>,
    /// The request whose pool gets the connection when the clean end of the
    /// body is found; `None` where the connection is not to be reused.
    pub owner: Option<Unit>,
    /// The connection that was set aside for the pool and not collected yet.
    pub returned: Option<(Unit, Stream)>,
}

/// The smaller of two numbers.
pub open spec fn smaller(a: int, b: int) -> int {
    if a <= b {
        a
    } else {
        b
    }
}

/// Whether a read at the time `now` finds the clean end of the body: the
/// deadline has not passed, nothing is pending, the data ends cleanly, and
/// the buffer is not empty.
pub open spec fn finds_end(before: Supply, room: nat, now: u64) -> bool {
    &&& !expired(before.deadline, now)
    &&& before.pending.len() == 0
    &&& before.ending is None
    &&& room > 0
}

/// The connection is set aside for the pool of its owner, if it has one.
pub open spec fn handed_back(before: Supply, after: Supply) -> bool {
    match before.owner {
        Some(unit) => {
            &&& after.owner is None
            &&& after.returned matches Some(pair)
            &&& pair.0 == unit
            &&& pair.1.remaining() == before.rest
            &&& pair.1.written() == before.sent
        },
        None => same_connection(before, after),
    }
}

/// Nothing becomes of the connection.
pub open spec fn same_connection(before: Supply, after: Supply) -> bool {
    &&& after.rest == before.rest
    &&& after.sent == before.sent
    &&& after.owner == before.owner
    &&& after.returned == before.returned
}

/// What a read at the time `now` returns and delivers.
///
/// After the deadline the read times out and nothing is consumed. Else a
/// read delivers as many of the pending bytes as the buffer takes. Once
/// nothing is pending, the ending decides: `Ok(0)` for a clean end, else
/// the error.
pub open spec fn delivered_at(
    before: Supply,
    after: Supply,
    buf_before: Seq<u8>,
    buf_after: Seq<u8>,
    now: u64,
    r: Result<usize, IoError>,
) -> bool {
    if expired(before.deadline, now) {
        &&& r matches Err(e)
        &&& e@ == timeout_fault()
        &&& buf_after == buf_before
        &&& after.pending == before.pending
    } else if before.pending.len() > 0 {
        &&& r matches Ok(n)
        &&& n == smaller(buf_before.len() as int, before.pending.len() as int)
        &&& buf_after == before.pending.take(n as int) + buf_before.skip(n as int)
        &&& after.pending == before.pending.skip(n as int)
    } else {
        &&& buf_after == buf_before
        &&& after.pending == before.pending
        &&& match before.ending {
            Some(fault) => r matches Err(e) && e@ == fault,
            None => r matches Ok(n) && n == 0,
        }
    }
}

/// What one read at the time `now` does to the reader and to the buffer.
pub open spec fn read_outcome_at(
    before: Supply,
    after: Supply,
    buf_before: Seq<u8>,
    buf_after: Seq<u8>,
    now: u64,
    r: Result<usize, IoError>,
) -> bool {
    &&& buf_after.len() == buf_before.len()
    &&& after.ending == before.ending
    &&& after.deadline == before.deadline || after.deadline is None
    &&& delivered_at(before, after, buf_before, buf_after, now, r)
    &&& if finds_end(before, buf_before.len(), now) {
        handed_back(before, after)
    } else {
        same_connection(before, after)
    }
}

/// What reading to the end at the time `now` does: after the deadline it
/// times out and reads nothing; else it appends every pending byte to
/// `buf` and reports the ending, and a clean end hands the connection back.
pub open spec fn read_to_end_outcome_at(
    before: Supply,
    after: Supply,
    buf_before: Seq<u8>,
    buf_after: Seq<u8>,
    now: u64,
    r: Result<usize, IoError>,
) -> bool {
    &&& after.ending == before.ending
    &&& after.deadline == before.deadline || after.deadline is None
    &&& if expired(before.deadline, now) {
        &&& r matches Err(e)
        &&& e@ == timeout_fault()
        &&& buf_after == buf_before
        &&& after.pending == before.pending
        &&& same_connection(before, after)
    } else {
        &&& buf_after == buf_before + before.pending
        &&& after.pending == Seq::<u8>::empty()
        &&& match before.ending {
            Some(fault) => r matches Err(e) && e@ == fault && same_connection(before, after),
            None => r matches Ok(n) && n == before.pending.len() && handed_back(before, after),
        }
    }
}

/// A source of bytes that is read piece by piece.
pub trait Read: Sized {
    /// The state of the reader.
    spec fn supply(&self) -> Supply;

    /// Whether nothing is pending: every byte has been delivered.
    fn is_at_end(&self) -> (r: bool)
        ensures
            r == (self.supply().pending.len() == 0),
    ;

    /// Reads into the front of `buf` at the time `now`, and returns how many
    /// bytes were stored.
    fn read_at(&mut self, buf: &mut [u8], now: u64) -> (r: Result<usize, IoError>)
        ensures
            read_outcome_at(old(self).supply(), final(self).supply(), old(buf)@, final(buf)@, now, r),
    ;

    /// Reads into the front of `buf` and returns how many bytes were stored.
    /// The clock is read once, and the read is the one of that time.
    fn read(&mut self, buf: &mut [u8]) -> (r: Result<usize, IoError>)
        ensures
            exists|now: u64| #[trigger]
                read_outcome_at(
                    old(self).supply(),
                    final(self).supply(),
                    old(buf)@,
                    final(buf)@,
                    now,
                    r,
                ),
    {
        let now = now_millis();
        let r = self.read_at(buf, now);
        assert(read_outcome_at(old(self).supply(), self.supply(), old(buf)@, buf@, now, r));
        r
    }
}

/// A reader of a body that has a connection underneath, and hands it to
/// no pool by itself.
pub trait Framed: Read {
    /// The reader keeps its connection: it has no owner to hand it to.
    proof fn keeps_connection(&self)
        ensures
            self.supply().owner is None,
    ;

    /// Gives back the stream underneath. Once the body has been delivered,
    /// the stream stands behind the body.
    fn into_stream(self) -> (s: Stream)
        ensures
            s.written() == self.supply().sent,
            self.supply().pending.len() == 0 ==> s.remaining() == self.supply().rest,
    ;
}

/// Reads until the data ends, at the time `now`, appending to `buf`, and
/// returns how many bytes were appended. An error ends the reading; what was
/// read before it stays in `buf`.
pub fn read_to_end_at<R: Read>(reader: &mut R, buf: &mut Vec<u8>, now: u64) -> (r: Result<
    usize,
    IoError,
>)
    ensures
        read_to_end_outcome_at(
            old(reader).supply(),
            final(reader).supply(),
            old(buf)@,
            final(buf)@,
            now,
            r,
        ),
{
    let mut scratch: Vec<u8> = vec![0u8; 4096];
    let start = buf.len();
    let ghost first = reader.supply();
    assert(first.pending.take(0) =~= Seq::<u8>::empty());
    assert(first.pending.skip(0) =~= first.pending);
    assert(buf@ + Seq::<u8>::empty() =~= buf@);
    loop
        invariant
            scratch@.len() == 4096,
            start == old(buf)@.len(),
            first == old(reader).supply(),
            start <= buf@.len(),
            buf@.len() - start <= first.pending.len(),
            buf@ == old(buf)@ + first.pending.take(buf@.len() - start),
            reader.supply().pending == first.pending.skip(buf@.len() - start),
            reader.supply().ending == first.ending,
            reader.supply().deadline == first.deadline || reader.supply().deadline is None,
            same_connection(first, reader.supply()),
            buf@.len() > start ==> !expired(first.deadline, now),
            buf@.len() == start ==> reader.supply().deadline == first.deadline,
        decreases reader.supply().pending.len(),
    {
        let ghost taken = buf@.len() - start;
        let ghost before = reader.supply();
        let outcome = reader.read_at(scratch.as_mut_slice(), now);
        match outcome {
            Err(e) => {
                proof {
                    if !expired(first.deadline, now) {
                        assert(first.pending.skip(taken).len() == first.pending.len() - taken);
                        assert(first.pending.take(taken) =~= first.pending);
                        assert(reader.supply().pending =~= Seq::<u8>::empty());
                    } else {
                        assert(taken == 0);
                        assert(reader.supply().pending =~= first.pending);
                    }
                }
                return Err(e);
            },
            Ok(n) => {
                if n == 0 {
                    proof {
                        assert(first.pending.skip(taken).len() == first.pending.len() - taken);
                        assert(first.pending.take(taken) =~= first.pending);
                        assert(reader.supply().pending =~= Seq::<u8>::empty());
                    }
                    return Ok(buf.len() - start);
                }
                buf.extend_from_slice(slice_subrange(scratch.as_slice(), 0, n));
                assert(buf@ =~= old(buf)@ + first.pending.take(taken + n));
                assert(reader.supply().pending =~= first.pending.skip(taken + n));
            },
        }
    }
}

/// Reads until the data ends, appending to `buf`, and returns how many bytes
/// were appended. The clock is read once, and the reading is the one of
/// that time.
pub fn read_to_end<R: Read>(reader: &mut R, buf: &mut Vec<u8>) -> (r: Result<usize, IoError>)
    ensures
        exists|now: u64| #[trigger]
            read_to_end_outcome_at(
                old(reader).supply(),
                final(reader).supply(),
                old(buf)@,
                final(buf)@,
                now,
                r,
            ),
{
    let now = now_millis();
    let r = read_to_end_at(reader, buf, now);
    assert(read_to_end_outcome_at(old(reader).supply(), reader.supply(), old(buf)@, buf@, now, r));
    r
}

} // verus!
