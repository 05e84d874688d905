//! The log buffer: a fixed-capacity byte ring buffer that renders log
//! records into itself, and the form of it that every context shares.

use crate::queue;
use crate::record::{decimal, file_text, line_number_text, Level, LogRecord, Message, MAX_FILE_LEN};
use core::cell::RefCell;
use critical_section::Mutex;
use vstd::prelude::*;
use vstd::slice::slice_subrange;
use vstd::string::StringSliceAdditionalSpecFns;

verus! {

/// `critical_section::Mutex`: a value that can only be borrowed inside a
/// critical section. Nothing is claimed of what it holds.
#[verifier::external_type_specification]
#[verifier::external_body]
#[verifier::reject_recursive_types(T)]
pub struct ExMutex<T>(Mutex<T>);

/// `core::cell::RefCell`: a value that is borrowed mutably through a shared
/// reference. Nothing is claimed of what it holds.
#[verifier::external_type_specification]
#[verifier::external_body]
#[verifier::reject_recursive_types(T)]
pub struct ExRefCell<T: ?Sized>(RefCell<T>);

/// `core::fmt::Error`: the error of a formatting operation. It carries
/// nothing, and nothing is claimed of it.
#[verifier::external_type_specification]
#[verifier::external_body]
pub struct ExFmtError(core::fmt::Error);

/// A byte queue over `N` slots, one of which always stays free.
///
/// The write cursor `wr` and the read cursor `rd` are slot indices. The queue
/// is empty when they are equal and full when advancing `wr` would make them
/// equal, so at most `N - 1` bytes are queued at any time.
pub struct LogBufferInner<const N: usize> {
    wr: usize,
    rd: usize,
    buf: [u8; N],
}

impl<const N: usize> View for LogBufferInner<N> {
    type V = Seq<u8>;

    /// The queued bytes, oldest first.
    closed spec fn view(&self) -> Seq<u8> {
        Seq::new(self.count(), |i: int| self.buf@[self.slot(i)])
    }
}

impl<const N: usize> LogBufferInner<N> {
    /// The largest number of bytes that can be queued.
    pub open spec fn capacity() -> nat {
        if N == 0 {
            0
        } else {
            (N - 1) as nat
        }
    }

    /// The slot that follows `val`, which is slot 0 at the end of the storage.
    pub open spec fn next_slot(val: usize) -> usize {
        if val + 1 < N {
            (val + 1) as usize
        } else {
            0
        }
    }

    /// Both cursors are slot indices (or zero, where there is no slot at all).
    #[verifier::type_invariant]
    pub closed spec fn wf(self) -> bool {
        (N == 0 && self.wr == 0 && self.rd == 0) || (self.wr < N && self.rd < N)
    }

    /// The write cursor.
    pub closed spec fn write_cursor(self) -> usize {
        self.wr
    }

    /// The read cursor.
    pub closed spec fn read_cursor(self) -> usize {
        self.rd
    }

    /// Number of queued bytes: the distance from `rd` to `wr`, modulo `N`.
    closed spec fn count(self) -> nat {
        if self.wr >= self.rd {
            (self.wr - self.rd) as nat
        } else {
            (self.wr + N - self.rd) as nat
        }
    }

    /// The slot that holds the `i`-th queued byte.
    closed spec fn slot(self, i: int) -> int {
        if self.rd + i < N {
            self.rd + i
        } else {
            self.rd + i - N
        }
    }

    /// Both cursors are slot indices. They tell how many bytes are queued,
    /// and the buffer never holds more than its capacity.
    pub proof fn lemma_occupancy(self)
        requires
            self.wf(),
        ensures
            N > 0 ==> self.write_cursor() < N && self.read_cursor() < N,
            N == 0 ==> self.write_cursor() == 0 && self.read_cursor() == 0,
            self@.len() <= Self::capacity(),
            N > 0 ==> self@.len() == (self.write_cursor() - self.read_cursor()) % (N as int),
            self@.len() == 0 <==> self.write_cursor() == self.read_cursor(),
            self@.len() == Self::capacity() <==> Self::next_slot(self.write_cursor())
                == self.read_cursor(),
    {
        if N > 0 {
            let d = self.wr - self.rd;
            if d >= 0 {
                vstd::arithmetic::div_mod::lemma_small_mod(d as nat, N as nat);
            } else {
                vstd::arithmetic::div_mod::lemma_small_mod((d + N) as nat, N as nat);
                vstd::arithmetic::div_mod::lemma_mod_add_multiples_vanish(d, N as int);
            }
        }
    }

    /// Whatever is written to a new buffer and read from it, and in whatever
    /// order: of the bytes written so far, as many as were read are gone,
    /// and never more than `N - 1` are left.
    pub proof fn lemma_never_overfull(ops: Seq<queue::Op>)
        ensures
            ({
                let written = queue::accepted(Seq::empty(), Self::capacity(), ops).len();
                let read = queue::delivered(Seq::empty(), Self::capacity(), ops).len();
                let left = queue::run(Seq::empty(), Self::capacity(), ops).len();
                &&& written - read == left
                &&& left <= Self::capacity()
                &&& N > 0 ==> written - read <= N - 1
            }),
    {
        queue::lemma_occupancy(Seq::empty(), Self::capacity(), ops);
    }

    /// An empty buffer, with both cursors at slot 0.
    pub fn new() -> (r: LogBufferInner<N>)
        ensures
            r@ == Seq::<u8>::empty(),
            r.write_cursor() == 0,
            r.read_cursor() == 0,
    {
        LogBufferInner { wr: 0, rd: 0, buf: [0; N] }
    }

    /// Queues one byte, unless the buffer is full: then nothing changes.
    /// The byte goes into the slot at the write cursor, which moves on by
    /// one slot; the read cursor stays.
    pub fn write(&mut self, byte: u8) -> (r: Result<(), ()>)
        ensures
            r is Ok <==> old(self)@.len() < Self::capacity(),
            final(self)@ == queue::write(old(self)@, Self::capacity(), byte),
            final(self).read_cursor() == old(self).read_cursor(),
            r is Ok ==> final(self).write_cursor() == Self::next_slot(old(self).write_cursor()),
            r is Err ==> *final(self) == *old(self),
    {
        proof {
            use_type_invariant(&*self);
        }
        if Self::inc_mod_n(self.wr) != self.rd {
            let w: usize = self.wr;
            self.buf[w] = byte;
            self.wr = Self::inc_mod_n(self.wr);
            assert(self@ =~= old(self)@.push(byte));
            Ok(())
        } else {
            Err(())
        }
    }

    /// Takes the oldest queued byte, if there is one: the byte in the slot
    /// at the read cursor, which moves on by one slot. The write cursor
    /// stays. Where nothing is queued, nothing changes.
    pub fn read(&mut self) -> (r: Option<u8>)
        ensures
            r == queue::front(old(self)@),
            final(self)@ == queue::read(old(self)@),
            final(self).write_cursor() == old(self).write_cursor(),
            r is Some ==> final(self).read_cursor() == Self::next_slot(old(self).read_cursor()),
            r is None ==> *final(self) == *old(self),
    {
        proof {
            use_type_invariant(&*self);
        }
        if self.wr != self.rd {
            let byte = self.buf[self.rd];
            self.rd = Self::inc_mod_n(self.rd);
            assert(self@ =~= old(self)@.drop_first());
            Some(byte)
        } else {
            None
        }
    }

    /// Whether no byte is queued.
    pub fn is_empty(&self) -> (r: bool)
        ensures
            r == (self@.len() == 0),
    {
        proof {
            use_type_invariant(self);
        }
        self.wr == self.rd
    }

    /// Advances a cursor by one slot.
    pub fn inc_mod_n(val: usize) -> (r: usize)
        ensures
            r == Self::next_slot(val),
    {
        if val < usize::MAX && val + 1 < N {
            val + 1
        } else {
            0
        }
    }

    /// Queues the bytes of `bytes` one by one, up to the first that finds
    /// the buffer full: that byte and all behind it are dropped.
    pub fn write_bytes(&mut self, bytes: &[u8])
        ensures
            final(self)@ == queue::append(old(self)@, Self::capacity(), bytes@),
            final(self).read_cursor() == old(self).read_cursor(),
    {
        proof {
            use_type_invariant(&*self);
            self.lemma_occupancy();
        }
        let ghost start = self@;
        let mut i: usize = 0;
        while i < bytes.len()
            invariant
                i <= bytes.len(),
                self@ == start + bytes@.take(i as int),
                self@.len() <= Self::capacity(),
                self.read_cursor() == old(self).read_cursor(),
            ensures
                self@ == queue::append(start, Self::capacity(), bytes@),
                self.read_cursor() == old(self).read_cursor(),
            decreases bytes.len() - i,
        {
            if self.write(bytes[i]).is_err() {
                break ;
            }
            assert(bytes@.take(i as int).push(bytes@[i as int]) =~= bytes@.take(i + 1));
            i += 1;
        }
    }

    /// Queues the text of `s`, as far as it fits. The result is `Ok` also
    /// where text was dropped.
    pub fn write_str(&mut self, s: &str) -> (r: core::fmt::Result)
        ensures
            r is Ok,
            final(self)@ == queue::append(old(self)@, Self::capacity(), s.spec_bytes()),
            final(self).read_cursor() == old(self).read_cursor(),
    {
        self.write_bytes(s.as_bytes());
        Ok(())
    }

    /// Queues the decimal digits of `n`, as far as they fit.
    pub fn write_decimal(&mut self, n: u32)
        ensures
            final(self)@ == queue::append(old(self)@, Self::capacity(), decimal(n as nat)),
            final(self).read_cursor() == old(self).read_cursor(),
    {
        let mut digits: [u8; 10] = [0; 10];
        let mut i: usize = 9;
        let mut rest: u32 = n / 10;
        digits[9] = 0x30 + (n % 10) as u8;
        proof {
            reveal_with_fuel(digit_limit, 2);
        }
        while rest > 0
            invariant
                i < 10,
                rest <= digit_limit(i as nat),
                decimal(n as nat) == if rest > 0 {
                    decimal(rest as nat) + digits@.skip(i as int)
                } else {
                    digits@.skip(i as int)
                },
            decreases rest,
        {
            let ghost before = digits@;
            proof {
                reveal_with_fuel(digit_limit, 11);
            }
            i -= 1;
            digits[i] = 0x30 + (rest % 10) as u8;
            assert(digits@.skip(i as int) =~= seq![digits@[i as int]] + before.skip(i + 1));
            assert(decimal(rest as nat) + before.skip(i + 1) =~= if rest < 10 {
                digits@.skip(i as int)
            } else {
                decimal((rest / 10) as nat) + digits@.skip(i as int)
            });
            rest = rest / 10;
        }
        self.write_bytes(slice_subrange(digits.as_slice(), i, 10));
    }

    /// Queues a file name as a line shows it, as far as it fits: the name
    /// itself, or `...` and its last [`MAX_FILE_LEN`] bytes where it is
    /// longer than that, or `???` where there is none.
    pub fn write_file(&mut self, file: Option<&str>)
        ensures
            final(self)@ == queue::append(old(self)@, Self::capacity(), file_text(file)),
            final(self).read_cursor() == old(self).read_cursor(),
    {
        match file {
            Some(name) => {
                let bytes = name.as_bytes();
                if bytes.len() <= MAX_FILE_LEN {
                    self.write_bytes(bytes);
                } else {
                    let tail = slice_subrange(bytes, bytes.len() - MAX_FILE_LEN, bytes.len());
                    let _ = self.write_str("...");
                    self.write_bytes(tail);
                    proof {
                        queue::lemma_append_append(
                            old(self)@,
                            Self::capacity(),
                            "...".spec_bytes(),
                            tail@,
                        );
                    }
                }
            },
            None => {
                let _ = self.write_str("???");
            },
        }
    }

    /// Queues the text of a message, as far as it fits.
    pub fn write_message(&mut self, message: &Message)
        ensures
            final(self)@ == queue::append(old(self)@, Self::capacity(), message.text()),
            final(self).read_cursor() == old(self).read_cursor(),
    {
        match message {
            Message::Text(text) => {
                let _ = self.write_str(text);
            },
            Message::Location(file, line) => {
                let ghost start = self@;
                let ghost cap = Self::capacity();
                let _ = self.write_str("at ");
                let ghost mut done = "at ".spec_bytes();
                let _ = self.write_str(file);
                proof {
                    queue::lemma_append_append(start, cap, done, file.spec_bytes());
                    done = done + file.spec_bytes();
                }
                let _ = self.write_str(":");
                proof {
                    queue::lemma_append_append(start, cap, done, ":".spec_bytes());
                    done = done + ":".spec_bytes();
                }
                self.write_decimal(*line);
                proof {
                    queue::lemma_append_append(start, cap, done, decimal(*line as nat));
                }
            },
        }
    }

    /// Renders `record` as one line of text and queues it. Where the buffer
    /// fills up on the way, the rest of the line is dropped.
    pub fn log(&mut self, record: &LogRecord)
        ensures
            final(self)@ == queue::append(old(self)@, Self::capacity(), record.text()),
            final(self).read_cursor() == old(self).read_cursor(),
    {
        let ghost start = self@;
        let ghost cap = Self::capacity();
        let ghost mut done: Seq<u8>;
        if record.has_panic_target() {
            let _ = self.write_str("[PANIC] ");
            proof {
                done = "[PANIC] ".spec_bytes();
            }
        } else {
            let _ = self.write_str("[");
            proof {
                done = "[".spec_bytes();
            }
            self.write_file(record.file);
            proof {
                queue::lemma_append_append(start, cap, done, file_text(record.file));
                done = done + file_text(record.file);
            }
            let _ = self.write_str(":");
            proof {
                queue::lemma_append_append(start, cap, done, ":".spec_bytes());
                done = done + ":".spec_bytes();
            }
            self.write_decimal(
                match record.line {
                    Some(n) => n,
                    None => 0,
                },
            );
            proof {
                queue::lemma_append_append(start, cap, done, line_number_text(record.line));
                done = done + line_number_text(record.line);
            }
            let _ = self.write_str("] ");
            proof {
                queue::lemma_append_append(start, cap, done, "] ".spec_bytes());
                done = done + "] ".spec_bytes();
            }
        }
        self.write_message(&record.message);
        proof {
            queue::lemma_append_append(start, cap, done, record.message.text());
            done = done + record.message.text();
        }
        let _ = self.write_str("\n");
        proof {
            queue::lemma_append_append(start, cap, done, "\n".spec_bytes());
        }
    }
}

/// A ring buffer that every context that logs shares with the one context
/// that drains it.
///
/// Each operation runs inside a critical section of its own, so it is
/// atomic with respect to every other context, interrupt handlers included.
/// No operation waits, and none allocates. Other contexts may write between
/// any two operations: what the buffer holds is therefore not a property of
/// a reference to it, and no contract here speaks of it. What one operation
/// does to the buffer is stated on [`LogBufferInner`].
#[verifier::reject_recursive_types(N)]
pub struct LogBuffer<const N: usize> {
    inner: Mutex<RefCell<LogBufferInner<N>>>,
}

impl<const N: usize> LogBuffer<N> {
    /// Makes a buffer a shared one.
    ///
    /// Puts `inner` into `RefCell::new` and that into
    /// `critical_section::Mutex::new`. Nothing is claimed of the result.
    #[verifier::external_body]
    fn share(inner: LogBufferInner<N>) -> (r: LogBuffer<N>) {
        LogBuffer { inner: Mutex::new(RefCell::new(inner)) }
    }

    /// A shared buffer that starts out as an empty [`LogBufferInner`].
    pub fn new() -> (r: LogBuffer<N>) {
        Self::share(LogBufferInner::new())
    }

    /// Takes the oldest queued byte, if there is one.
    ///
    /// Calls [`LogBufferInner::read`] inside `critical_section::with`, on
    /// the buffer borrowed through `Mutex::borrow` and `RefCell::borrow_mut`.
    /// Nothing is claimed of the result: other contexts decide what is queued.
    #[verifier::external_body]
    pub fn read(&self) -> (r: Option<u8>) {
        critical_section::with(|cs| self.inner.borrow(cs).borrow_mut().read())
    }

    /// Whether no byte is queued at the time of the call.
    ///
    /// Calls [`LogBufferInner::is_empty`] inside `critical_section::with`,
    /// on the buffer borrowed through `Mutex::borrow` and `RefCell::borrow`.
    /// Nothing is claimed of the result.
    #[verifier::external_body]
    pub fn is_empty(&self) -> (r: bool) {
        critical_section::with(|cs| self.inner.borrow(cs).borrow().is_empty())
    }

    /// Renders `record` and queues it as one atomic operation.
    ///
    /// Calls [`LogBufferInner::log`] inside `critical_section::with`, on the
    /// buffer borrowed through `Mutex::borrow` and `RefCell::borrow_mut`.
    #[verifier::external_body]
    fn log_record(&self, record: &LogRecord) {
        critical_section::with(|cs| self.inner.borrow(cs).borrow_mut().log(record))
    }

    /// Whether records of this level and target are logged: all are.
    pub fn enabled(&self, _level: Level, _target: &str) -> (r: bool)
        ensures
            r,
    {
        true
    }

    /// Logs one record: renders it as a line of text and queues the line, as
    /// far as it fits. The caller is never made to wait and learns of no
    /// failure.
    pub fn log(&self, record: &LogRecord) {
        if self.enabled(record.level, record.target) {
            self.log_record(record);
        }
    }
}

/// The largest number that can be left to write when `places` of the ten
/// places that a `u32` can take are still free.
spec fn digit_limit(places: nat) -> nat
    decreases 10 - places,
{
    if places >= 10 {
        u32::MAX as nat
    } else {
        digit_limit(places + 1) / 10
    }
}

} // verus!
