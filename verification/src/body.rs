//! How the body of a response is delimited, and the reader that delivers it.

use vstd::prelude::*;
use vstd::string::*;
use crate::charset::text_of;
use crate::chunked::{
    chunked_fault, chunked_payload, chunked_supply, chunked_unread, ChunkedRead,
};
use crate::error::IoError;
use crate::limited::{truncated_fault, LimitedRead};
use crate::pool::{ErrorReader, PoolReturnRead};
use crate::read::{
    read_to_end, read_to_end_at, read_to_end_outcome_at, smaller, Read, Supply,
};
use crate::stream::{DeadlineStream, Stream};
use crate::text::{eq_ignore_ascii_case, eq_ignoring_ascii_case, parse_usize, usize_of};
use crate::unit::Unit;

verus! {

/// The three ways in which a body is delimited.
#[derive(Clone, Copy, Debug, PartialEq, Eq, Structural)]
pub enum Framing {
    /// The body is in chunked transfer coding.
    Chunked,
    /// The body has the given number of bytes.
    Limited(usize),
    /// The body extends to the end of the stream.
    UntilClose,
}

/// The decision on a body: how it is delimited, and whether the connection
/// may be handed back for reuse once the body has been read.
#[derive(Clone, Copy, Debug, PartialEq, Eq, Structural)]
pub struct BodyPlan {
    pub framing: Framing,
    pub pool_return: bool,
}

/// What a response says of its body.
pub struct BodyFacts {
    /// The HTTP version of the status line.
    pub version: Seq<char>,
    /// The status code.
    pub status: u16,
    /// Whether the request used the method `HEAD`.
    pub is_head: bool,
    /// The value of the `Connection` header.
    pub connection: Option<Seq<char>>,
    /// The value of the `Transfer-Encoding` header.
    pub transfer_encoding: Option<Seq<char>>,
    /// The value of the `Content-Length` header.
    pub content_length: Option<Seq<char>>,
}

impl BodyFacts {
    /// The response cannot have a body: it answers `HEAD`, or its status is
    /// 204 or 304.
    pub open spec fn has_no_body(self) -> bool {
        self.is_head || self.status == 204 || self.status == 304
    }

    /// The connection serves this response only: the version is `HTTP/1.0`,
    /// or the `Connection` header says `close`.
    pub open spec fn closes(self) -> bool {
        ||| self.version == "HTTP/1.0"@
        ||| self.connection matches Some(value) && eq_ignoring_ascii_case(value, "close"@)
    }

    /// The response names a transfer coding, whatever it is.
    pub open spec fn is_chunked(self) -> bool {
        self.transfer_encoding matches Some(value) && value.len() > 0
    }

    /// The length that the `Content-Length` header gives, if it is a number.
    pub open spec fn length(self) -> Option<usize> {
        match self.content_length {
            Some(value) => usize_of(value),
            None => None,
        }
    }

    /// The decision, in order of priority: a response that cannot have a
    /// body has one of length zero; on a connection that closes the body
    /// extends to the end of the stream; a transfer coding means chunks; a
    /// content length limits the body; else the body extends to the end of
    /// the stream. The connection goes back to the pool only when it does
    /// not close and the body does not extend to the end of the stream.
    pub open spec fn plan(self) -> BodyPlan {
        if self.has_no_body() {
            BodyPlan { framing: Framing::Limited(0), pool_return: !self.closes() }
        } else if self.closes() {
            BodyPlan { framing: Framing::UntilClose, pool_return: false }
        } else if self.is_chunked() {
            BodyPlan { framing: Framing::Chunked, pool_return: true }
        } else {
            match self.length() {
                Some(n) => BodyPlan { framing: Framing::Limited(n), pool_return: true },
                None => BodyPlan { framing: Framing::UntilClose, pool_return: false },
            }
        }
    }
}

/// A connection is handed back for reuse only when that is safe: never
/// after a body that extends to the end of the stream, and never when the
/// connection closes.
pub proof fn pool_return_is_safe(facts: BodyFacts)
    ensures
        facts.plan().framing == Framing::UntilClose ==> !facts.plan().pool_return,
        facts.closes() ==> !facts.plan().pool_return,
        facts.has_no_body() ==> facts.plan().framing == Framing::Limited(0),
{
}

/// Whether two texts are the same.
fn same_text(a: &str, b: &str) -> (r: bool)
    ensures
        r == (a@ == b@),
{
    a.to_owned() == b.to_owned()
}

/// Decides how the body of a response is delimited, from the version and the
/// status of the response, the method of the request, and the values of the
/// three headers `Connection`, `Transfer-Encoding` and `Content-Length`.
pub fn select_body_plan(
    version: &str,
    status: u16,
    is_head: bool,
    connection: Option<&str>,
    transfer_encoding: Option<&str>,
    content_length: Option<&str>,
) -> (plan: BodyPlan)
    ensures
        plan == (BodyFacts {
            version: version@,
            status,
            is_head,
            connection: text_of(connection),
            transfer_encoding: text_of(transfer_encoding),
            content_length: text_of(content_length),
        }).plan(),
{
    let is_http10 = same_text(version, "HTTP/1.0");
    let is_close = match connection {
        Some(value) => eq_ignore_ascii_case(value, "close"),
        None => false,
    };
    let closes = is_http10 || is_close;
    let has_no_body = is_head || status == 204 || status == 304;
    if has_no_body {
        return BodyPlan { framing: Framing::Limited(0), pool_return: !closes };
    }
    if closes {
        return BodyPlan { framing: Framing::UntilClose, pool_return: false };
    }
    let is_chunked = match transfer_encoding {
        Some(value) => !value.is_empty(),
        None => false,
    };
    if is_chunked {
        return BodyPlan { framing: Framing::Chunked, pool_return: true };
    }
    let length = match content_length {
        Some(value) => parse_usize(value),
        None => None,
    };
    match length {
        Some(n) => BodyPlan { framing: Framing::Limited(n), pool_return: true },
        None => BodyPlan { framing: Framing::UntilClose, pool_return: false },
    }
}

/// The reader of a response body: one of the three framings, or the failure
/// that kept the body from being set up.
#[derive(Debug)]
pub enum BodyReader {
    /// A chunked body.
    Chunked(PoolReturnRead<ChunkedRead>),
    /// A body of a known length.
    Limited(PoolReturnRead<LimitedRead<DeadlineStream>>),
    /// A body that extends to the end of the stream.
    Unbounded(DeadlineStream),
    /// No body: every read reports the error.
    Failed(ErrorReader),
}

/// The request that a pooled reader keeps: the request of the response where
/// the plan allows the connection to be reused, else none.
pub open spec fn pooled_unit(plan: BodyPlan, unit: Option<Unit>) -> Option<Unit> {
    if plan.pool_return {
        unit
    } else {
        None
    }
}

/// The state of the reader that carries out a plan on a stream that holds
/// `bytes`, on which `sent` was written, under `deadline`.
///
/// A chunked body is the payload that the decoder finds; a body of known
/// length is that many bytes, and an error where the stream holds fewer;
/// any other body is all of the stream. A body of length zero is at its end
/// and asks for no deadline.
pub open spec fn planned_supply(
    plan: BodyPlan,
    bytes: Seq<u8>,
    sent: Seq<u8>,
    deadline: Option<u64>,
    unit: Option<Unit>,
) -> Supply {
    match plan.framing {
        Framing::Chunked => Supply {
            pending: chunked_payload(bytes),
            ending: chunked_fault(bytes),
            deadline,
            rest: bytes.skip(bytes.len() - chunked_unread(bytes)),
            sent,
            owner: pooled_unit(plan, unit),
            returned: None,
        },
        Framing::Limited(n) => {
            let delivered = smaller(n as int, bytes.len() as int);
            Supply {
                pending: bytes.take(delivered),
                ending: if bytes.len() < n {
                    Some(truncated_fault())
                } else {
                    None
                },
                deadline: if n > 0 {
                    deadline
                } else {
                    None
                },
                rest: bytes.skip(delivered),
                sent,
                owner: pooled_unit(plan, unit),
                returned: None,
            }
        },
        Framing::UntilClose => Supply {
            pending: bytes,
            ending: None,
            deadline,
            rest: Seq::empty(),
            sent,
            owner: None,
            returned: None,
        },
    }
}

impl BodyReader {
    /// The reader stands on `stream`: it is the reader of its kind that was
    /// made of that stream, with the deadline of that stream, and nothing
    /// has been read.
    pub open spec fn built_on(&self, stream: DeadlineStream) -> bool {
        match self {
            BodyReader::Chunked(p) => p.reader() matches Some(reader) && reader.supply()
                == chunked_supply(stream),
            BodyReader::Limited(p) => p.reader() matches Some(reader) && reader.reader() == stream
                && reader.position() == 0,
            BodyReader::Unbounded(s) => *s == stream,
            BodyReader::Failed(_) => false,
        }
    }

    /// The reader stands on `stream` under `deadline`, and nothing has been
    /// read. A chunked reader has decoded its body and stands behind it.
    pub open spec fn stands_on(&self, stream: Stream, deadline: Option<u64>) -> bool {
        match self {
            BodyReader::Chunked(p) => p.reader() matches Some(reader) && reader.supply().deadline
                == deadline,
            BodyReader::Limited(p) => {
                &&& p.reader() matches Some(reader)
                &&& reader.reader().stream() == stream
                &&& reader.reader().deadline() == deadline
                &&& reader.position() == 0
            },
            BodyReader::Unbounded(s) => s.stream() == stream && s.deadline() == deadline,
            BodyReader::Failed(_) => false,
        }
    }

    /// The reader that carries out a plan on a stream. The connection is
    /// handed back to `unit`'s pool only where the plan allows it.
    pub fn new(plan: BodyPlan, stream: DeadlineStream, unit: Option<Unit>) -> (r: BodyReader)
        ensures
            match plan.framing {
                Framing::Chunked => r is Chunked,
                Framing::Limited(n) => r matches BodyReader::Limited(p) && p.reader() matches Some(
                    reader,
                ) && reader.limit() == n,
                Framing::UntilClose => r is Unbounded,
            },
            r.built_on(stream),
            r.supply() == planned_supply(
                plan,
                stream.remaining(),
                stream.stream().written(),
                stream.deadline(),
                unit,
            ),
    {
        let unit = if plan.pool_return {
            unit
        } else {
            None
        };
        match plan.framing {
            Framing::Chunked => BodyReader::Chunked(
                PoolReturnRead::new(unit, ChunkedRead::new(stream)),
            ),
            Framing::Limited(n) => BodyReader::Limited(
                PoolReturnRead::new(unit, LimitedRead::new(stream, n)),
            ),
            Framing::UntilClose => BodyReader::Unbounded(stream),
        }
    }

    /// Reads the body to its end, appending to `buf`. The clock is read
    /// once, and the reading is the one of that time.
    pub fn read_to_end(&mut self, buf: &mut Vec<u8>) -> (r: Result<usize, IoError>)
        ensures
            exists|now: u64| #[trigger]
                read_to_end_outcome_at(
                    old(self).supply(),
                    final(self).supply(),
                    old(buf)@,
                    final(buf)@,
                    now,
                    r,
                ),
    {
        read_to_end(self, buf)
    }

    /// Reads the body to its end at the time `now`, appending to `buf`.
    pub fn read_to_end_at(&mut self, buf: &mut Vec<u8>, now: u64) -> (r: Result<usize, IoError>)
        ensures
            read_to_end_outcome_at(
                old(self).supply(),
                final(self).supply(),
                old(buf)@,
                final(buf)@,
                now,
                r,
            ),
    {
        read_to_end_at(self, buf, now)
    }

    /// Collects the connection that was set aside for the pool, if the body
    /// has been read to its end and the connection may be reused.
    pub fn take_returned(&mut self) -> (r: Option<(Unit, Stream)>)
        ensures
            r == old(self).supply().returned,
            final(self).supply() == (Supply { returned: None, ..old(self).supply() }),
    {
        match self {
            BodyReader::Chunked(p) => p.take_returned(),
            BodyReader::Limited(p) => p.take_returned(),
            BodyReader::Unbounded(_) => None,
            BodyReader::Failed(_) => None,
        }
    }
}

impl Read for BodyReader {
    open spec fn supply(&self) -> Supply {
        match self {
            BodyReader::Chunked(p) => p.supply(),
            BodyReader::Limited(p) => p.supply(),
            BodyReader::Unbounded(s) => s.supply(),
            BodyReader::Failed(e) => e.supply(),
        }
    }

    fn is_at_end(&self) -> (r: bool) {
        match self {
            BodyReader::Chunked(p) => p.is_at_end(),
            BodyReader::Limited(p) => p.is_at_end(),
            BodyReader::Unbounded(s) => s.is_at_end(),
            BodyReader::Failed(e) => e.is_at_end(),
        }
    }

    fn read_at(&mut self, buf: &mut [u8], now: u64) -> (r: Result<usize, IoError>) {
        match self {
            BodyReader::Chunked(p) => p.read_at(buf, now),
            BodyReader::Limited(p) => p.read_at(buf, now),
            BodyReader::Unbounded(s) => s.read_at(buf, now),
            BodyReader::Failed(e) => e.read_at(buf, now),
        }
    }
}

} // verus!
