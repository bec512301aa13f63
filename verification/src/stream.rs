//! The byte stream that a response is read from, and the same stream under
//! the deadline of a request.

use std::time::Duration;
use vstd::prelude::*;
use vstd::slice::slice_subrange;
use crate::error::{Fault, IoError, IoErrorKind};
use crate::read::{smaller, Framed, Read, Supply};

verus! {

/// The byte of the line feed.
pub const LF: u8 = 10;

/// The byte of the carriage return.
pub const CR: u8 = 13;

/// The length of the first line of `bytes`: up to and including the first
/// line feed, or all of `bytes` where there is none.
pub open spec fn line_len(bytes: Seq<u8>) -> int {
    match bytes.index_of_first(LF) {
        Some(i) => i + 1,
        None => bytes.len() as int,
    }
}

/// The error of a read timeout that the stream refuses.
pub open spec fn refused_timeout_fault() -> Fault {
    Fault { kind: IoErrorKind::InvalidInput, message: "cannot set a 0 duration timeout"@ }
}

/// A stream of received bytes, with a record of the bytes sent on it.
#[derive(Debug)]
pub struct Stream {
    data: Vec<u8>,
    position: usize,
    written: Vec<u8>,
}

impl Stream {
    /// The read position lies within the data.
    #[verifier::type_invariant]
    pub closed spec fn well_formed(&self) -> bool {
        self.position <= self.data@.len()
    }

    /// The bytes that have not been read yet.
    pub closed spec fn remaining(&self) -> Seq<u8> {
        self.data@.skip(self.position as int)
    }

    /// The bytes that were written to the stream.
    pub closed spec fn written(&self) -> Seq<u8> {
        self.written@
    }

    /// A stream that delivers the given bytes and then ends.
    pub fn from_vec(data: Vec<u8>) -> (s: Stream)
        ensures
            s.remaining() == data@,
            s.written() == Seq::<u8>::empty(),
            s.well_formed(),
    {
        Stream { data, position: 0, written: Vec::new() }
    }

    /// Sends bytes on the stream.
    pub fn write_all(&mut self, bytes: &[u8])
        ensures
            final(self).written() == old(self).written() + bytes@,
            final(self).remaining() == old(self).remaining(),
    {
        proof {
            use_type_invariant(&*self);
        }
        let mut written: Vec<u8> = Vec::new();
        std::mem::swap(&mut written, &mut self.written);
        written.extend_from_slice(bytes);
        assert(written@ =~= old(self).written@ + bytes@);
        self.written = written;
    }

    /// The bytes that were written to the stream.
    pub fn to_write_vec(&self) -> (v: Vec<u8>)
        ensures
            v@ == self.written(),
    {
        self.written.clone()
    }

    /// Installs a read timeout, in milliseconds; `None` removes it. A
    /// timeout of zero is refused.
    pub fn set_read_timeout(&self, timeout: Option<u64>) -> (r: Result<(), IoError>)
        ensures
            match r {
                Ok(_) => timeout != Some(0u64),
                Err(e) => timeout == Some(0u64) && e@ == refused_timeout_fault(),
            },
    {
        match timeout {
            Some(0) => Err(IoError::new(IoErrorKind::InvalidInput, "cannot set a 0 duration timeout")),
            _ => Ok(()),
        }
    }

    /// How many bytes have not been read yet.
    pub fn available(&self) -> (n: usize)
        ensures
            n == self.remaining().len(),
    {
        proof {
            use_type_invariant(self);
        }
        self.data.len() - self.position
    }

    /// The bytes that have not been read yet, without reading them.
    pub fn fill_buf(&self) -> (bytes: &[u8])
        ensures
            bytes@ == self.remaining(),
    {
        proof {
            use_type_invariant(self);
        }
        slice_subrange(self.data.as_slice(), self.position, self.data.len())
    }

    /// Marks the first `amount` unread bytes as read.
    pub fn consume(&mut self, amount: usize)
        requires
            amount <= old(self).remaining().len(),
        ensures
            final(self).remaining() == old(self).remaining().skip(amount as int),
            final(self).written() == old(self).written(),
    {
        proof {
            use_type_invariant(&*self);
        }
        let total = self.data.len();
        assert(self.position + amount <= total);
        self.position = self.position + amount;
        assert(self.remaining() =~= old(self).remaining().skip(amount as int));
    }

    /// Takes the first line off the stream, line feed included; what is left
    /// where no line feed follows; nothing at the end of the stream.
    pub fn read_line(&mut self) -> (line: Vec<u8>)
        ensures
            line@ == old(self).remaining().take(line_len(old(self).remaining())),
            final(self).remaining() == old(self).remaining().skip(line_len(old(self).remaining())),
            final(self).written() == old(self).written(),
            0 <= line_len(old(self).remaining()) <= old(self).remaining().len(),
    {
        proof {
            use_type_invariant(&*self);
        }
        let ghost rest = self.remaining();
        let start = self.position;
        let total = self.data.len();
        let mut end = start;
        while end < total && self.data[end] != LF
            invariant
                start <= end <= total,
                total == self.data@.len(),
                start == self.position,
                rest == self.data@.skip(start as int),
                forall|j: int| 0 <= j < end - start ==> rest[j] != LF,
            decreases total - end,
        {
            assert(rest[end - start] == self.data@[end as int]);
            end = end + 1;
        }
        proof {
            rest.index_of_first_ensures(LF);
            if end < total {
                assert(rest[end - start] == self.data@[end as int]);
                assert(rest.contains(LF));
            }
        }
        if end < total {
            end = end + 1;
        }
        assert(end - start == line_len(rest));
        let mut line: Vec<u8> = Vec::new();
        let mut i = start;
        while i < end
            invariant
                start <= i <= end <= total,
                total == self.data@.len(),
                start == self.position,
                rest == self.data@.skip(start as int),
                line@ == rest.take(i - start),
            decreases end - i,
        {
            line.push(self.data[i]);
            assert(line@ =~= rest.take(i + 1 - start));
            i = i + 1;
        }
        self.position = end;
        assert(self.remaining() =~= rest.skip(end - start));
        line
    }

    /// Copies as many of the unread bytes as `buf` takes into its front.
    pub fn read(&mut self, buf: &mut [u8]) -> (n: usize)
        ensures
            n == smaller(old(buf)@.len() as int, old(self).remaining().len() as int),
            final(buf)@ == old(self).remaining().take(n as int) + old(buf)@.skip(n as int),
            final(self).remaining() == old(self).remaining().skip(n as int),
            final(self).written() == old(self).written(),
    {
        proof {
            use_type_invariant(&*self);
        }
        let ghost rest = self.remaining();
        let left = self.data.len() - self.position;
        let n = if buf.len() < left {
            buf.len()
        } else {
            left
        };
        let mut i: usize = 0;
        while i < n
            invariant
                i <= n,
                n <= buf@.len(),
                buf@.len() == old(buf)@.len(),
                self.position + n <= self.data@.len() <= usize::MAX,
                self.position == old(self).position,
                self.data == old(self).data,
                self.written == old(self).written,
                rest == self.data@.skip(self.position as int),
                buf@ == rest.take(i as int) + old(buf)@.skip(i as int),
            decreases n - i,
        {
            buf[i] = self.data[self.position + i];
            assert(buf@ =~= rest.take(i + 1) + old(buf)@.skip(i + 1));
            i = i + 1;
        }
        self.position = self.position + n;
        assert(self.remaining() =~= rest.skip(n as int));
        n
    }
}

/// `SystemTime::elapsed` of the Unix epoch: the time since the epoch, or
/// nothing where the clock stands before it. The result depends on the
/// clock, so nothing is stated of it.
#[verifier::external_body]
fn since_epoch() -> Option<Duration> {
    std::time::UNIX_EPOCH.elapsed().ok()
}

/// `Duration::as_millis`: the whole milliseconds of a duration. The duration
/// is opaque here, so nothing is stated of the number.
#[verifier::external_body]
fn whole_millis(elapsed: &Duration) -> u128 {
    elapsed.as_millis()
}

/// The time that a reading of the clock stands for, in milliseconds since
/// the Unix epoch: a clock before the epoch reads as zero, and a time that
/// does not fit is the last time that does.
pub fn clock_reading(elapsed: Option<u128>) -> (now: u64)
    ensures
        now == match elapsed {
            None => 0,
            Some(millis) => if millis > u64::MAX {
                u64::MAX
            } else {
                millis as u64
            },
        },
{
    match elapsed {
        None => 0,
        Some(millis) => if millis > u64::MAX as u128 {
            u64::MAX
        } else {
            millis as u64
        },
    }
}

/// Reads the clock.
pub(crate) fn now_millis() -> u64 {
    let elapsed = match since_epoch() {
        Some(elapsed) => Some(whole_millis(&elapsed)),
        None => None,
    };
    clock_reading(elapsed)
}

/// The error of a read that was not served before the deadline.
pub open spec fn is_timeout(e: IoError) -> bool {
    e@.kind == IoErrorKind::TimedOut
}

/// What the error of a read that was not served before the deadline says.
pub open spec fn timeout_fault() -> Fault {
    Fault { kind: IoErrorKind::TimedOut, message: "timed out reading response"@ }
}

/// Whether a deadline has passed at the time `now`: a time at the deadline
/// or after it. Without a deadline nothing ever has.
pub open spec fn expired(deadline: Option<u64>, now: u64) -> bool {
    match deadline {
        Some(deadline) => now >= deadline,
        None => false,
    }
}

/// How much time is left until a deadline, in milliseconds. At the deadline
/// and after it the read has timed out.
pub fn time_until_deadline(deadline: u64, now: u64) -> (r: Result<u64, IoError>)
    ensures
        match r {
            Ok(left) => now < deadline && left == deadline - now,
            Err(e) => now >= deadline && is_timeout(e) && e@ == timeout_fault(),
        },
{
    if now < deadline {
        Ok(deadline - now)
    } else {
        Err(IoError::new(IoErrorKind::TimedOut, "timed out reading response"))
    }
}

/// What a deadline says of a read at the time `now`: without a deadline, and
/// before the deadline, the read is allowed; at the deadline and after it
/// the read has timed out.
pub open spec fn allowed_at(deadline: Option<u64>, now: u64, r: Result<(), IoError>) -> bool {
    if expired(deadline, now) {
        r matches Err(e) && e@ == timeout_fault()
    } else {
        r is Ok
    }
}

/// A stream under the deadline of a request: an absolute time, in
/// milliseconds since the Unix epoch, after which no read is served.
#[derive(Debug)]
pub struct DeadlineStream {
    stream: Stream,
    deadline: Option<u64>,
}

impl DeadlineStream {
    /// Puts a stream under a deadline; `None` is no deadline.
    pub fn new(stream: Stream, deadline: Option<u64>) -> (s: DeadlineStream)
        ensures
            s.stream() == stream,
            s.deadline() == deadline,
    {
        DeadlineStream { stream, deadline }
    }

    /// The stream underneath.
    pub closed spec fn stream(&self) -> Stream {
        self.stream
    }

    /// The deadline, if there is one.
    pub closed spec fn deadline(&self) -> Option<u64> {
        self.deadline
    }

    /// The bytes that have not been read yet.
    pub open spec fn remaining(&self) -> Seq<u8> {
        self.stream().remaining()
    }

    /// Whether the deadline allows a read at the time `now`.
    pub fn check_deadline_at(&self, now: u64) -> (r: Result<(), IoError>)
        ensures
            allowed_at(self.deadline(), now, r),
    {
        match self.deadline {
            None => Ok(()),
            Some(deadline) => match time_until_deadline(deadline, now) {
                Ok(_) => Ok(()),
                Err(e) => Err(e),
            },
        }
    }

    /// Whether the deadline allows a read now.
    ///
    /// Without a deadline every read is allowed. With one, the clock is
    /// read, and the answer is the one that the deadline gives at the time
    /// that was read: allowed before the deadline, timed out at it and
    /// after it. A deadline of zero, which no time precedes, allows nothing.
    pub fn check_deadline(&self) -> (r: Result<(), IoError>)
        ensures
            r matches Err(e) ==> is_timeout(e) && self.deadline() is Some,
            exists|now: u64| #[trigger] allowed_at(self.deadline(), now, r),
    {
        let now = now_millis();
        let r = self.check_deadline_at(now);
        assert(allowed_at(self.deadline(), now, r));
        r
    }

    /// How many bytes have not been read yet.
    pub fn available(&self) -> (n: usize)
        ensures
            n == self.remaining().len(),
    {
        self.stream.available()
    }

    /// The bytes that have not been read yet, without reading them and
    /// without regard to the deadline.
    pub fn buffered(&self) -> (bytes: &[u8])
        ensures
            bytes@ == self.remaining(),
    {
        self.stream.fill_buf()
    }

    /// Marks the first `amount` unread bytes as read.
    pub fn consume(&mut self, amount: usize)
        requires
            amount <= old(self).remaining().len(),
        ensures
            final(self).remaining() == old(self).remaining().skip(amount as int),
            final(self).stream().written() == old(self).stream().written(),
            final(self).deadline() == old(self).deadline(),
    {
        self.stream.consume(amount);
    }

    /// What taking a line off the stream at the time `now` gives: after the
    /// deadline the timeout, and nothing is taken; else the first line, as
    /// [`Stream::read_line`] takes it.
    pub open spec fn line_taken_at(
        before: &DeadlineStream,
        after: &DeadlineStream,
        now: u64,
        r: Result<Vec<u8>, IoError>,
    ) -> bool {
        &&& after.deadline() == before.deadline()
        &&& after.stream().written() == before.stream().written()
        &&& if expired(before.deadline(), now) {
            r matches Err(e) && e@ == timeout_fault() && after.remaining() == before.remaining()
        } else {
            &&& r matches Ok(line)
            &&& line@ == before.remaining().take(line_len(before.remaining()))
            &&& after.remaining() == before.remaining().skip(line_len(before.remaining()))
        }
    }

    /// Takes the first line off the stream, as [`Stream::read_line`] does,
    /// unless the deadline has passed at the time `now`.
    pub fn read_line_at(&mut self, now: u64) -> (r: Result<Vec<u8>, IoError>)
        ensures
            Self::line_taken_at(old(self), final(self), now, r),
            0 <= line_len(old(self).remaining()) <= old(self).remaining().len(),
    {
        proof {
            old(self).remaining().index_of_first_ensures(LF);
        }
        match self.check_deadline_at(now) {
            Err(e) => Err(e),
            Ok(_) => Ok(self.stream.read_line()),
        }
    }

    /// Takes the first line off the stream, as [`Stream::read_line`] does,
    /// unless the deadline has passed.
    pub fn read_line(&mut self) -> (r: Result<Vec<u8>, IoError>)
        ensures
            exists|now: u64| #[trigger] Self::line_taken_at(old(self), final(self), now, r),
            0 <= line_len(old(self).remaining()) <= old(self).remaining().len(),
    {
        let now = now_millis();
        let r = self.read_line_at(now);
        assert(Self::line_taken_at(old(self), self, now, r));
        r
    }
}

impl Read for DeadlineStream {
    open spec fn supply(&self) -> Supply {
        Supply {
            pending: self.remaining(),
            ending: None,
            deadline: self.deadline(),
            rest: Seq::empty(),
            sent: self.stream().written(),
            owner: None,
            returned: None,
        }
    }

    fn is_at_end(&self) -> (r: bool) {
        self.stream.available() == 0
    }

    fn read_at(&mut self, buf: &mut [u8], now: u64) -> (r: Result<usize, IoError>)
        ensures
            final(self).stream().written() == old(self).stream().written(),
            final(self).deadline() == old(self).deadline(),
    {
        match self.check_deadline_at(now) {
            Err(e) => Err(e),
            Ok(_) => {
                let n = self.stream.read(buf);
                assert(self.supply().pending == old(self).supply().pending.skip(n as int));
                if n == 0 {
                    assert(old(self).remaining().take(0) + old(buf)@.skip(0) =~= old(buf)@);
                    assert(old(self).remaining().skip(0) =~= old(self).remaining());
                }
                Ok(n)
            },
        }
    }
}

impl Framed for DeadlineStream {
    proof fn keeps_connection(&self) {
    }

    fn into_stream(self) -> (s: Stream)
        ensures
            s == self.stream(),
    {
        self.stream
    }
}

} // verus!
