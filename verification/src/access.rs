//! Access to a log buffer, held alone or shared.
//!
//! What a channel or a panic report does to the log buffer is written once,
//! for every form of access. The contracts say exactly what happens to a
//! buffer that is held alone. Of a shared buffer they say what holds whatever
//! other contexts do in between.

use crate::log_buffer::{LogBuffer, LogBufferInner};
use crate::queue;
use crate::record::{LogRecord, Message};
use vstd::math::min;
use vstd::prelude::*;

verus! {

/// A log buffer as a context that uses it sees it.
pub trait LogAccess {
    /// The queued bytes, oldest first, where nothing but this value decides
    /// what is queued; `None` where other contexts may read and write at any
    /// time.
    spec fn queued(&self) -> Option<Seq<u8>>;

    /// The largest number of bytes that can be queued.
    spec fn limit(&self) -> nat;

    /// Takes the oldest queued byte, if there is one.
    fn read(&mut self) -> (r: Option<u8>)
        ensures
            final(self).limit() == old(self).limit(),
            match old(self).queued() {
                Some(q) => r == queue::front(q) && final(self).queued() == Some(queue::read(q)),
                None => final(self).queued() is None,
            },
    ;

    /// Renders `record` as a line of text and queues the line, as far as it
    /// fits.
    fn log(&mut self, record: &LogRecord)
        ensures
            final(self).limit() == old(self).limit(),
            match old(self).queued() {
                Some(q) => final(self).queued() == Some(
                    queue::append(q, old(self).limit(), record.text()),
                ),
                None => final(self).queued() is None,
            },
    ;
}

/// A buffer that is held alone: what is queued is known.
impl<const N: usize> LogAccess for LogBufferInner<N> {
    open spec fn queued(&self) -> Option<Seq<u8>> {
        Some(self@)
    }

    open spec fn limit(&self) -> nat {
        LogBufferInner::<N>::capacity()
    }

    fn read(&mut self) -> (r: Option<u8>) {
        LogBufferInner::read(self)
    }

    fn log(&mut self, record: &LogRecord) {
        LogBufferInner::log(self, record)
    }
}

/// A shared buffer: other contexts may write between any two operations.
impl<'a, const N: usize> LogAccess for &'a LogBuffer<N> {
    open spec fn queued(&self) -> Option<Seq<u8>> {
        None
    }

    open spec fn limit(&self) -> nat {
        LogBufferInner::<N>::capacity()
    }

    fn read(&mut self) -> (r: Option<u8>) {
        LogBuffer::read(*self)
    }

    fn log(&mut self, record: &LogRecord) {
        LogBuffer::log(*self, record)
    }
}

/// Takes bytes from `source` one by one and stores them at the start of
/// `data`, until `source` has none left, `max_len` bytes are taken, or
/// `data` is full. Returns how many were taken. The rest of `data` stays as
/// it is.
pub fn drain<S: LogAccess>(source: &mut S, data: &mut [u8], max_len: usize) -> (len: usize)
    ensures
        len <= max_len,
        len <= old(data)@.len(),
        final(data)@.len() == old(data)@.len(),
        final(data)@.skip(len as int) == old(data)@.skip(len as int),
        final(source).limit() == old(source).limit(),
        match old(source).queued() {
            Some(q) => {
                &&& len == min(min(max_len as int, old(data)@.len() as int), q.len() as int)
                &&& final(data)@.take(len as int) == q.take(len as int)
                &&& final(source).queued() == Some(q.skip(len as int))
            },
            None => final(source).queued() is None,
        },
{
    let limit = if max_len < data.len() {
        max_len
    } else {
        data.len()
    };
    let mut len: usize = 0;
    while len < limit
        invariant
            len <= limit,
            limit <= max_len,
            limit == max_len || limit == old(data)@.len(),
            limit <= data@.len(),
            data@.len() == old(data)@.len(),
            source.limit() == old(source).limit(),
            forall|i: int| len <= i < data@.len() ==> data@[i] == old(data)@[i],
            match old(source).queued() {
                Some(q) => {
                    &&& len <= q.len()
                    &&& forall|i: int| 0 <= i < len ==> data@[i] == q[i]
                    &&& source.queued() == Some(q.skip(len as int))
                },
                None => source.queued() is None,
            },
        ensures
            len <= limit,
            data@.len() == old(data)@.len(),
            source.limit() == old(source).limit(),
            forall|i: int| len <= i < data@.len() ==> data@[i] == old(data)@[i],
            match old(source).queued() {
                Some(q) => {
                    &&& len == q.len() || len == limit
                    &&& len <= q.len()
                    &&& forall|i: int| 0 <= i < len ==> data@[i] == q[i]
                    &&& source.queued() == Some(q.skip(len as int))
                },
                None => source.queued() is None,
            },
        decreases limit - len,
    {
        match source.read() {
            Some(byte) => {
                data[len] = byte;
                len += 1;
                proof {
                    if let Some(q) = old(source).queued() {
                        assert(q.skip(len - 1).drop_first() =~= q.skip(len as int));
                    }
                }
            },
            None => {
                proof {
                    if let Some(q) = old(source).queued() {
                        assert(q.skip(len as int).len() == 0);
                    }
                }
                break ;
            },
        }
    }
    proof {
        assert(data@.skip(len as int) =~= old(data)@.skip(len as int));
        if let Some(q) = old(source).queued() {
            assert(data@.take(len as int) =~= q.take(len as int));
        }
    }
    len
}

/// The message of the record that ends the report of a panic.
pub const HALT_MESSAGE: &'static str = "entering endless loop.";

/// The text that reports a panic: a panic record for the place of the
/// panic, where it is known, one for the panic message, and one that says
/// that execution halts.
pub open spec fn panic_text(location: Option<(&str, u32)>, message: &str) -> Seq<u8> {
    let place = match location {
        Some((file, line)) => LogRecord::panic_record(Message::Location(file, line)).text(),
        None => Seq::empty(),
    };
    place + LogRecord::panic_record(Message::Text(message)).text() + LogRecord::panic_record(
        Message::Text(HALT_MESSAGE),
    ).text()
}

/// Reports a panic to the log: logs the records of [`panic_text`] one after
/// the other. The place of the panic comes first, and is the last to be
/// lost where the buffer overflows.
pub fn log_panic<A: LogAccess>(log: &mut A, location: Option<(&str, u32)>, message: &str)
    ensures
        final(log).limit() == old(log).limit(),
        match old(log).queued() {
            Some(q) => final(log).queued() == Some(
                queue::append(q, old(log).limit(), panic_text(location, message)),
            ),
            None => final(log).queued() is None,
        },
{
    let ghost start = log.queued();
    let ghost cap = log.limit();
    let ghost mut done = Seq::<u8>::empty();
    proof {
        if let Some(q) = start {
            assert(queue::append(q, cap, done) =~= q);
        }
    }
    if let Some((file, line)) = location {
        let place = LogRecord::panic(Message::Location(file, line));
        log.log(&place);
        proof {
            if let Some(q) = start {
                queue::lemma_append_append(q, cap, done, place.text());
            }
            done = done + place.text();
        }
    }
    let cause = LogRecord::panic(Message::Text(message));
    log.log(&cause);
    proof {
        if let Some(q) = start {
            queue::lemma_append_append(q, cap, done, cause.text());
        }
        done = done + cause.text();
    }
    let halt = LogRecord::panic(Message::Text(HALT_MESSAGE));
    log.log(&halt);
    proof {
        if let Some(q) = start {
            queue::lemma_append_append(q, cap, done, halt.text());
        }
        done = done + halt.text();
        assert(done =~= panic_text(location, message));
    }
}

} // verus!
