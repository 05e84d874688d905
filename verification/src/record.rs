//! Log records and the line of text that each is rendered as.

use vstd::prelude::*;
use vstd::string::StringSliceAdditionalSpecFns;
use vstd::utf8::encode_utf8_decode_utf8;

verus! {

/// The target that marks a record as a panic record.
pub const PANIC_TARGET: &'static str = "PANIC";

/// The longest file name, in bytes, that is rendered in full.
pub const MAX_FILE_LEN: usize = 32;

/// How severe a record is. A record is rendered in the same way at every level.
#[derive(Clone, Copy, Debug, PartialEq, Eq)]
pub enum Level {
    Error,
    Warn,
    Info,
    Debug,
    Trace,
}

/// The message of a record.
#[derive(Clone, Copy, Debug)]
pub enum Message<'a> {
    /// Text that is rendered as it stands.
    Text(&'a str),
    /// A place in the source, rendered as `at <file>:<line>`.
    Location(&'a str, u32),
}

/// One log record. It is rendered and queued at once, and never kept.
#[derive(Clone, Copy, Debug)]
pub struct LogRecord<'a> {
    pub level: Level,
    /// Where the record comes from; [`PANIC_TARGET`] marks a panic record.
    pub target: &'a str,
    /// The source file that logged the record, where it is known.
    pub file: Option<&'a str>,
    /// The line in that file, where it is known.
    pub line: Option<u32>,
    pub message: Message<'a>,
}

/// The decimal digits of `n` in ASCII, without leading zeros.
pub open spec fn decimal(n: nat) -> Seq<u8>
    decreases n,
{
    if n < 10 {
        seq![(0x30 + n) as u8]
    } else {
        decimal(n / 10).push((0x30 + n % 10) as u8)
    }
}

/// The file name as a line shows it. A name of more than [`MAX_FILE_LEN`]
/// bytes is cut down to its last [`MAX_FILE_LEN`] bytes, behind `...`; a
/// missing name is shown as `???`.
pub open spec fn file_text(file: Option<&str>) -> Seq<u8> {
    match file {
        Some(name) => {
            let bytes = name.spec_bytes();
            if bytes.len() <= MAX_FILE_LEN {
                bytes
            } else {
                "...".spec_bytes() + bytes.subrange(bytes.len() - MAX_FILE_LEN, bytes.len() as int)
            }
        },
        None => "???".spec_bytes(),
    }
}

/// The line number as a line shows it: a missing one is shown as `0`.
pub open spec fn line_number_text(line: Option<u32>) -> Seq<u8> {
    match line {
        Some(n) => decimal(n as nat),
        None => decimal(0),
    }
}

impl<'a> Message<'a> {
    /// The bytes of the message.
    pub open spec fn text(self) -> Seq<u8> {
        match self {
            Message::Text(text) => text.spec_bytes(),
            Message::Location(file, line) => "at ".spec_bytes() + file.spec_bytes()
                + ":".spec_bytes() + decimal(line as nat),
        }
    }
}

impl<'a> LogRecord<'a> {
    /// Whether this is a panic record.
    pub open spec fn is_panic(self) -> bool {
        self.target@ == PANIC_TARGET@
    }

    /// The line that the record is rendered as, line break included:
    /// `[PANIC] <message>` for a panic record, `[<file>:<line>] <message>`
    /// for any other.
    pub open spec fn text(self) -> Seq<u8> {
        if self.is_panic() {
            "[PANIC] ".spec_bytes() + self.message.text() + "\n".spec_bytes()
        } else {
            "[".spec_bytes() + file_text(self.file) + ":".spec_bytes() + line_number_text(
                self.line,
            ) + "] ".spec_bytes() + self.message.text() + "\n".spec_bytes()
        }
    }

    /// The panic record with the given message.
    pub open spec fn panic_record(message: Message<'a>) -> LogRecord<'a> {
        LogRecord { level: Level::Error, target: PANIC_TARGET, file: None, line: None, message }
    }

    /// A panic record with the given message.
    pub fn panic(message: Message<'a>) -> (r: LogRecord<'a>)
        ensures
            r == Self::panic_record(message),
    {
        LogRecord { level: Level::Error, target: PANIC_TARGET, file: None, line: None, message }
    }

    /// Tells whether this is a panic record.
    pub fn has_panic_target(&self) -> (r: bool)
        ensures
            r == self.is_panic(),
    {
        same_text(self.target, PANIC_TARGET)
    }
}

/// Tells whether two strings hold the same text.
pub fn same_text(a: &str, b: &str) -> (r: bool)
    ensures
        r == (a@ == b@),
{
    let x = a.as_bytes();
    let y = b.as_bytes();
    proof {
        encode_utf8_decode_utf8(a@);
        encode_utf8_decode_utf8(b@);
    }
    if x.len() != y.len() {
        return false;
    }
    let mut i: usize = 0;
    while i < x.len()
        invariant
            i <= x.len(),
            x.len() == y.len(),
            x@ == a.spec_bytes(),
            y@ == b.spec_bytes(),
            forall|j: int| 0 <= j < i ==> x@[j] == y@[j],
        decreases x.len() - i,
    {
        if x[i] != y[i] {
            return false;
        }
        i += 1;
    }
    assert(x@ =~= y@);
    true
}

} // verus!
