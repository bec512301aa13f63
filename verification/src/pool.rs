//! Returning a connection for reuse, once its body has been read to the end.

use vstd::prelude::*;
use crate::error::IoError;
use crate::read::{Framed, Read, Supply};
use crate::stream::Stream;
use crate::unit::Unit;

verus! {

/// A body reader that hands its connection back for reuse.
///
/// When a read into a buffer that is not empty finds the clean end of the
/// body, and the response belongs to a request, the reader is turned back
/// into its stream, and the stream is set aside with the request's context,
/// to be collected with [`PoolReturnRead::take_returned`] and put into a
/// pool. That happens once; reads after it report the end and never an
/// error. A body that ends with an error sets nothing aside.
#[derive(Debug)]
pub struct PoolReturnRead<R> {
    unit: Option<Unit>,
    reader: Option<R>,
    returned: Option<(Unit, Stream)>,
}

impl<R> PoolReturnRead<R> {
    /// Wraps a body reader; `unit` is the request that the pool is keyed by.
    pub fn new(unit: Option<Unit>, reader: R) -> (p: PoolReturnRead<R>)
        ensures
            p.unit() == unit,
            p.reader() == Some(reader),
            p.returned() is None,
    {
        PoolReturnRead { unit, reader: Some(reader), returned: None }
    }

    /// The request whose connection this is, until the connection is handed
    /// back.
    pub closed spec fn unit(&self) -> Option<Unit> {
        self.unit
    }

    /// The body reader, until the connection is handed back.
    pub closed spec fn reader(&self) -> Option<R> {
        self.reader
    }

    /// The connection that was set aside for the pool and not collected yet.
    pub closed spec fn returned(&self) -> Option<(Unit, Stream)> {
        self.returned
    }

    /// Collects the connection that was set aside for the pool.
    pub fn take_returned(&mut self) -> (r: Option<(Unit, Stream)>)
        ensures
            r == old(self).returned(),
            final(self).returned() is None,
            final(self).unit() == old(self).unit(),
            final(self).reader() == old(self).reader(),
    {
        self.returned.take()
    }
}

/// The state of a pooled reader: that of its body reader, with the request
/// as the owner of the connection, and nothing once the connection is
/// handed back.
pub open spec fn pooled_supply<R: Read>(
    unit: Option<Unit>,
    reader: Option<R>,
    returned: Option<(Unit, Stream)>,
) -> Supply {
    match reader {
        Some(r) => Supply {
            pending: r.supply().pending,
            ending: r.supply().ending,
            deadline: r.supply().deadline,
            rest: r.supply().rest,
            sent: r.supply().sent,
            owner: unit,
            returned,
        },
        None => Supply {
            pending: Seq::empty(),
            ending: None,
            deadline: None,
            rest: Seq::empty(),
            sent: Seq::empty(),
            owner: None,
            returned,
        },
    }
}

impl<R: Framed> Read for PoolReturnRead<R> {
    open spec fn supply(&self) -> Supply {
        pooled_supply(self.unit(), self.reader(), self.returned())
    }

    fn is_at_end(&self) -> (r: bool) {
        match &self.reader {
            Some(reader) => reader.is_at_end(),
            None => true,
        }
    }

    fn read_at(&mut self, buf: &mut [u8], now: u64) -> (r: Result<usize, IoError>) {
        let amount = match &mut self.reader {
            None => {
                return Ok(0);
            },
            Some(reader) => {
                proof {
                    reader.keeps_connection();
                }
                match reader.read_at(buf, now) {
                    Err(e) => {
                        return Err(e);
                    },
                    Ok(amount) => amount,
                }
            },
        };
        if amount == 0 && buf.len() > 0 && self.unit.is_some() {
            // The body has been read to its clean end, and the connection
            // has a pool to go to.
            assert(self.supply().pending =~= Seq::<u8>::empty());
            let reader = self.reader.take();
            let unit = self.unit.take();
            if let (Some(unit), Some(reader)) = (unit, reader) {
                self.returned = Some((unit, reader.into_stream()));
            }
        }
        Ok(amount)
    }
}

/// A reader that reports the same error on every read: the failure that
/// kept the body from being set up.
#[derive(Debug)]
pub struct ErrorReader(pub IoError);

impl Read for ErrorReader {
    open spec fn supply(&self) -> Supply {
        Supply {
            pending: Seq::empty(),
            ending: Some(self.0@),
            deadline: None,
            rest: Seq::empty(),
            sent: Seq::empty(),
            owner: None,
            returned: None,
        }
    }

    fn is_at_end(&self) -> (r: bool) {
        true
    }

    fn read_at(&mut self, buf: &mut [u8], now: u64) -> (r: Result<usize, IoError>)
        ensures
            final(self).0@ == old(self).0@,
    {
        Err(self.0.duplicate())
    }
}

} // verus!
