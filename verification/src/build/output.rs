//! What a build writes: its lines, its diagnostics and its settings.
use vstd::prelude::*;

use crate::backend::simctl;
use crate::backend::simctl::text_lossy;
use crate::error;
use crate::error::{ErrorCode, SimtopError};
use crate::text;
use crate::text::{cat2, cat3, chars_of, text_of};

verus! {

/// The most bytes of a line that are kept.
pub const MAX_OUTPUT_LINE_BYTES: usize = 32 * 1024;

/// The most bytes of diagnostics that are kept, but for a closing remark.
pub const MAX_STDERR_BYTES: usize = 256 * 1024;

/// The most bytes of build settings that are accepted.
pub const MAX_SETTINGS_BYTES: usize = 8 * 1024 * 1024;

// ---------------------------------------------------------------------------
// Lines
// ---------------------------------------------------------------------------

/// The text of a line: without a carriage return at its end, and with a remark
/// when bytes are missing.
pub open spec fn line_of(bytes: Seq<u8>, truncated: bool) -> Seq<char> {
    let body = text::without_return(simctl::lossy_text(bytes));
    if truncated {
        body + " [line truncated]"@
    } else {
        body
    }
}

/// The text of a line.
pub fn line_to_string(bytes: &Vec<u8>, truncated: bool) -> (r: String)
    ensures
        r@ == line_of(bytes@, truncated),
{
    let whole = text_lossy(bytes);
    let chars = chars_of(whole.as_str());
    let total: usize = chars.len();
    let end: usize = if total > 0 && chars[total - 1] == '\r' {
        total - 1
    } else {
        total
    };
    let body = text_of(&chars, 0, end);
    assert(body@ =~= text::without_return(whole@));
    if truncated {
        cat2(body.as_str(), " [line truncated]")
    } else {
        body
    }
}

/// Splits a stream of bytes into lines of bounded length.
#[derive(Debug, PartialEq, Eq)]
pub struct LineSplitter {
    line: Vec<u8>,
    truncated: bool,
}

/// The content of a [`LineSplitter`]: the bytes of the unfinished line that are
/// kept, and whether others were dropped.
#[verifier::ext_equal]
pub struct UnfinishedLine {
    pub kept: Seq<u8>,
    pub truncated: bool,
}

impl View for LineSplitter {
    type V = UnfinishedLine;

    closed spec fn view(&self) -> UnfinishedLine {
        UnfinishedLine { kept: self.line@, truncated: self.truncated }
    }
}

impl UnfinishedLine {
    /// An empty line.
    pub open spec fn empty() -> UnfinishedLine {
        UnfinishedLine { kept: Seq::empty(), truncated: false }
    }

    /// The line after one more byte.
    pub open spec fn after(self, byte: u8) -> UnfinishedLine {
        if byte == 10 {
            UnfinishedLine::empty()
        } else if self.kept.len() < MAX_OUTPUT_LINE_BYTES {
            UnfinishedLine { kept: self.kept.push(byte), ..self }
        } else {
            UnfinishedLine { truncated: true, ..self }
        }
    }

    /// The text of the line.
    pub open spec fn shown(self) -> Seq<char> {
        line_of(self.kept, self.truncated)
    }

    /// The line after a run of bytes.
    pub open spec fn after_all(self, bytes: Seq<u8>) -> UnfinishedLine
        decreases bytes.len(),
    {
        if bytes.len() == 0 {
            self
        } else {
            self.after_all(bytes.drop_last()).after(bytes.last())
        }
    }
}

/// An unfinished line never holds more than its limit, however long the stream
/// is.
pub proof fn unfinished_lines_are_bounded(bytes: Seq<u8>)
    ensures
        UnfinishedLine::empty().after_all(bytes).kept.len() <= MAX_OUTPUT_LINE_BYTES,
    decreases bytes.len(),
{
    if bytes.len() > 0 {
        unfinished_lines_are_bounded(bytes.drop_last());
    }
}

/// A line within the limit comes through whole.
pub proof fn short_lines_are_kept_whole(bytes: Seq<u8>)
    requires
        bytes.len() <= MAX_OUTPUT_LINE_BYTES,
        forall|i: int| 0 <= i < bytes.len() ==> bytes[i] != 10,
    ensures
        UnfinishedLine::empty().after_all(bytes) == (UnfinishedLine {
            kept: bytes,
            truncated: false,
        }),
    decreases bytes.len(),
{
    if bytes.len() > 0 {
        short_lines_are_kept_whole(bytes.drop_last());
        assert(bytes =~= bytes.drop_last().push(bytes.last()));
    } else {
        assert(bytes =~= Seq::empty());
    }
}

impl LineSplitter {
    /// A splitter at the start of a stream.
    pub fn new() -> (r: Self)
        ensures
            r@ == UnfinishedLine::empty(),
    {
        LineSplitter { line: Vec::new(), truncated: false }
    }

    /// Takes in a byte, and gives the line that it ends.
    pub fn push(&mut self, byte: u8) -> (r: Option<String>)
        ensures
            final(self)@ == old(self)@.after(byte),
            text::opt_text(r) == if byte == 10 {
                Some(old(self)@.shown())
            } else {
                None
            },
    {
        if byte == 10 {
            let shown = line_to_string(&self.line, self.truncated);
            self.line.clear();
            self.truncated = false;
            Some(shown)
        } else {
            if self.line.len() < MAX_OUTPUT_LINE_BYTES {
                self.line.push(byte);
            } else {
                self.truncated = true;
            }
            None
        }
    }

    /// The line that the end of the stream ends; nothing when it is empty.
    pub fn finish(&self) -> (r: Option<String>)
        ensures
            text::opt_text(r) == if self@.kept.len() > 0 || self@.truncated {
                Some(self@.shown())
            } else {
                None
            },
    {
        if self.line.len() > 0 || self.truncated {
            Some(line_to_string(&self.line, self.truncated))
        } else {
            None
        }
    }
}

// ---------------------------------------------------------------------------
// Diagnostics
// ---------------------------------------------------------------------------

/// The number of bytes of a character in UTF-8.
pub open spec fn char_width(c: char) -> nat {
    if c <= '\u{7f}' {
        1
    } else if c <= '\u{7ff}' {
        2
    } else if c <= '\u{ffff}' {
        3
    } else {
        4
    }
}

/// The number of bytes of a text in UTF-8.
pub open spec fn width(s: Seq<char>) -> nat
    decreases s.len(),
{
    if s.len() == 0 {
        0
    } else {
        width(s.drop_last()) + char_width(s.last())
    }
}

/// The longest beginning of a text that is no longer than `limit` bytes.
pub open spec fn fitting(s: Seq<char>, limit: nat) -> Seq<char>
    decreases s.len(),
{
    if s.len() == 0 || width(s) <= limit {
        s
    } else {
        fitting(s.drop_last(), limit)
    }
}

proof fn width_of_concatenation(a: Seq<char>, b: Seq<char>)
    ensures
        width(a + b) == width(a) + width(b),
    decreases b.len(),
{
    if b.len() == 0 {
        assert(a + b =~= a);
    } else {
        assert((a + b).drop_last() =~= a + b.drop_last());
        width_of_concatenation(a, b.drop_last());
    }
}

proof fn width_of_beginning(s: Seq<char>, n: int)
    requires
        0 <= n <= s.len(),
    ensures
        width(s.take(n)) <= width(s),
{
    assert(s =~= s.take(n) + s.skip(n));
    width_of_concatenation(s.take(n), s.skip(n));
}

proof fn fitting_is_cut_at(s: Seq<char>, n: int, limit: nat)
    requires
        0 <= n <= s.len(),
        width(s.take(n)) <= limit,
        n < s.len() ==> width(s.take(n + 1)) > limit,
    ensures
        fitting(s, limit) == s.take(n),
    decreases s.len() - n,
{
    if n == s.len() {
        assert(s.take(n) =~= s);
    } else {
        width_of_beginning(s, n + 1);
        let shorter = s.drop_last();
        assert(shorter.take(n) =~= s.take(n));
        if n < shorter.len() {
            assert(shorter.take(n + 1) =~= s.take(n + 1));
        }
        fitting_is_cut_at(shorter, n, limit);
    }
}

proof fn fitting_fits(s: Seq<char>, limit: nat)
    ensures
        width(fitting(s, limit)) <= limit,
    decreases s.len(),
{
    if s.len() > 0 && width(s) > limit {
        fitting_fits(s.drop_last(), limit);
    }
}

fn width_of_char(c: char) -> (r: usize)
    ensures
        r == char_width(c),
        1 <= r <= 4,
{
    if c <= '\u{7f}' {
        1
    } else if c <= '\u{7ff}' {
        2
    } else if c <= '\u{ffff}' {
        3
    } else {
        4
    }
}

/// The number of characters in the longest beginning of a text that is no longer
/// than `limit` bytes, and the number of its bytes.
fn measure(chars: &Vec<char>, limit: usize) -> (r: (usize, usize))
    ensures
        r.0 <= chars@.len(),
        fitting(chars@, limit as nat) == chars@.take(r.0 as int),
        r.1 == width(chars@.take(r.0 as int)),
        r.1 <= limit,
        r.0 == chars@.len() <==> width(chars@) <= limit,
{
    let mut count: usize = 0;
    let mut used: usize = 0;
    assert(chars@.take(0) =~= Seq::empty());
    while count < chars.len()
        invariant
            count <= chars@.len(),
            used <= limit,
            used == width(chars@.take(count as int)),
        decreases chars@.len() - count,
    {
        let next = width_of_char(chars[count]);
        assert(chars@.take(count + 1).drop_last() =~= chars@.take(count as int));
        assert(width(chars@.take(count + 1)) == used + next);
        if limit - used < next {
            proof {
                fitting_is_cut_at(chars@, count as int, limit as nat);
                width_of_beginning(chars@, count + 1);
            }
            return (count, used);
        }
        used = used + next;
        count = count + 1;
    }
    assert(chars@.take(count as int) =~= chars@);
    (count, used)
}

/// The longest beginning of a text that is no longer than `limit` bytes.
pub fn beginning(s: &str, limit: usize) -> (r: String)
    ensures
        r@ == fitting(s@, limit as nat),
{
    let chars = chars_of(s);
    let (count, bytes) = measure(&chars, limit);
    let r = text_of(&chars, 0, count);
    assert(r@ =~= chars@.take(count as int));
    r
}

/// Diagnostics of bounded length.
#[derive(Debug, PartialEq, Eq)]
pub struct Diagnostics {
    held: String,
    bytes: usize,
}

impl View for Diagnostics {
    type V = Seq<char>;

    closed spec fn view(&self) -> Seq<char> {
        self.held@
    }
}

/// The room that is kept free for the remark about missing diagnostics.
pub const REMARK_ROOM: usize = 24;

/// Diagnostics with a line put behind them.
pub open spec fn with_line(held: Seq<char>, line: Seq<char>) -> Seq<char> {
    if width(held) >= MAX_STDERR_BYTES {
        held
    } else {
        let remaining = (MAX_STDERR_BYTES - width(held)) as nat;
        if width(line) < remaining {
            held + line + "\n"@
        } else {
            let keep: nat = if remaining >= REMARK_ROOM {
                (remaining - REMARK_ROOM) as nat
            } else {
                0
            };
            held + fitting(line, keep) + "\n[stderr truncated]\n"@
        }
    }
}

proof fn remarks_are_short()
    ensures
        width("\n"@) == 1,
        width("\n[stderr truncated]\n"@) == 20,
{
    reveal_strlit("\n");
    reveal_strlit("\n[stderr truncated]\n");
    reveal_with_fuel(width, 21);
}

/// Diagnostics never grow beyond their limit and one closing remark.
pub proof fn diagnostics_are_bounded(held: Seq<char>, line: Seq<char>)
    requires
        width(held) < MAX_STDERR_BYTES + 20,
    ensures
        width(with_line(held, line)) < MAX_STDERR_BYTES + 20,
{
    remarks_are_short();
    if width(held) < MAX_STDERR_BYTES {
        let remaining = (MAX_STDERR_BYTES - width(held)) as nat;
        if width(line) < remaining {
            width_of_concatenation(held, line);
            width_of_concatenation(held + line, "\n"@);
        } else {
            let keep: nat = if remaining >= REMARK_ROOM {
                (remaining - REMARK_ROOM) as nat
            } else {
                0
            };
            fitting_fits(line, keep);
            width_of_concatenation(held, fitting(line, keep));
            width_of_concatenation(held + fitting(line, keep), "\n[stderr truncated]\n"@);
        }
    }
}

impl Diagnostics {
    #[verifier::type_invariant]
    spec fn measured(&self) -> bool {
        self.bytes == width(self.held@) && self.bytes < MAX_STDERR_BYTES + 20
    }

    /// No diagnostics.
    pub fn new() -> (r: Self)
        ensures
            r@ == Seq::<char>::empty(),
    {
        let held = String::new();
        assert(held@ =~= Seq::<char>::empty());
        Diagnostics { held, bytes: 0 }
    }

    /// The diagnostics so far.
    pub fn as_str(&self) -> (r: &str)
        ensures
            r@ == self@,
            width(r@) < MAX_STDERR_BYTES + 20,
    {
        proof {
            use_type_invariant(self);
        }
        self.held.as_str()
    }

    /// The diagnostics with a line put behind them, as far as there is room.
    pub fn append(self, line: &str) -> (r: Self)
        ensures
            r@ == with_line(self@, line@),
    {
        proof {
            use_type_invariant(&self);
        }
        if self.bytes >= MAX_STDERR_BYTES {
            return self;
        }
        proof {
            remarks_are_short();
            diagnostics_are_bounded(self.held@, line@);
        }
        let remaining: usize = MAX_STDERR_BYTES - self.bytes;
        let chars = chars_of(line);
        let (count, used) = measure(&chars, remaining - 1);
        if count == chars.len() {
            assert(chars@.take(count as int) =~= line@);
            proof {
                width_of_concatenation(self.held@, line@);
                width_of_concatenation(self.held@ + line@, "\n"@);
            }
            return Diagnostics {
                held: cat3(self.held.as_str(), line, "\n"),
                bytes: self.bytes + used + 1,
            };
        }
        let keep: usize = if remaining >= REMARK_ROOM {
            remaining - REMARK_ROOM
        } else {
            0
        };
        let (kept, kept_bytes) = measure(&chars, keep);
        let beginning = text_of(&chars, 0, kept);
        assert(beginning@ =~= chars@.take(kept as int));
        proof {
            width_of_concatenation(self.held@, beginning@);
            width_of_concatenation(self.held@ + beginning@, "\n[stderr truncated]\n"@);
        }
        Diagnostics {
            held: cat3(self.held.as_str(), beginning.as_str(), "\n[stderr truncated]\n"),
            bytes: self.bytes + kept_bytes + 20,
        }
    }
}

/// One stream of a running program: its lines, and, when they are wanted, the
/// diagnostics that they make up.
#[derive(Debug)]
pub struct OutputStream {
    lines: LineSplitter,
    diagnostics: Diagnostics,
    capture: bool,
}

/// The content of an [`OutputStream`].
#[verifier::ext_equal]
pub struct StreamView {
    pub line: UnfinishedLine,
    pub diagnostics: Seq<char>,
    pub capture: bool,
}

impl View for OutputStream {
    type V = StreamView;

    closed spec fn view(&self) -> StreamView {
        StreamView {
            line: self.lines@,
            diagnostics: self.diagnostics@,
            capture: self.capture,
        }
    }
}

impl StreamView {
    /// The diagnostics after one more line.
    pub open spec fn noted(self, line: Seq<char>) -> Seq<char> {
        if self.capture {
            with_line(self.diagnostics, line)
        } else {
            self.diagnostics
        }
    }
}

impl OutputStream {
    /// A stream at its start; `capture` tells whether its lines are diagnostics.
    pub fn new(capture: bool) -> (r: Self)
        ensures
            r@ == (StreamView {
                line: UnfinishedLine::empty(),
                diagnostics: Seq::empty(),
                capture,
            }),
    {
        OutputStream { lines: LineSplitter::new(), diagnostics: Diagnostics::new(), capture }
    }

    fn note(&mut self, line: &str)
        ensures
            final(self)@ == (StreamView { diagnostics: old(self)@.noted(line@), ..old(self)@ }),
    {
        if self.capture {
            let mut diagnostics = Diagnostics::new();
            std::mem::swap(&mut diagnostics, &mut self.diagnostics);
            self.diagnostics = diagnostics.append(line);
        }
    }

    /// Takes in a byte, and gives the line that it ends.
    pub fn push(&mut self, byte: u8) -> (r: Option<String>)
        ensures
            text::opt_text(r) == if byte == 10 {
                Some(old(self)@.line.shown())
            } else {
                None
            },
            final(self)@ == (StreamView {
                line: old(self)@.line.after(byte),
                diagnostics: if byte == 10 {
                    old(self)@.noted(old(self)@.line.shown())
                } else {
                    old(self)@.diagnostics
                },
                ..old(self)@
            }),
    {
        match self.lines.push(byte) {
            Some(line) => {
                self.note(line.as_str());
                Some(line)
            },
            None => None,
        }
    }

    /// The line that the end of the stream ends, if there is one; it counts as a
    /// diagnostic like the others.
    pub fn finish(&mut self) -> (r: Option<String>)
        ensures
            text::opt_text(r) == if old(self)@.line.kept.len() > 0 || old(self)@.line.truncated {
                Some(old(self)@.line.shown())
            } else {
                None
            },
            final(self)@ == (StreamView {
                diagnostics: match r {
                    Some(line) => old(self)@.noted(line@),
                    None => old(self)@.diagnostics,
                },
                ..old(self)@
            }),
    {
        match self.lines.finish() {
            Some(line) => {
                self.note(line.as_str());
                Some(line)
            },
            None => None,
        }
    }

    /// The diagnostics so far.
    pub fn diagnostics(&self) -> (r: &str)
        ensures
            r@ == self@.diagnostics,
            width(r@) < MAX_STDERR_BYTES + 20,
    {
        self.diagnostics.as_str()
    }
}

/// The error about a command that failed, with its diagnostics when there are
/// any.
pub open spec fn failed_command(message: Seq<char>, stderr: Seq<char>) -> error::Failure {
    error::failure(
        ErrorCode::CommandFailed,
        if text::is_blank(stderr) {
            message
        } else {
            message + "; stderr:\n"@ + text::trimmed_end(stderr)
        },
    )
}

/// The error about a command that failed.
pub fn command_failed(message: &str, stderr: &str) -> (r: SimtopError)
    ensures
        r@ == failed_command(message@, stderr@),
{
    if text::blank(stderr) {
        SimtopError::new(ErrorCode::CommandFailed, message)
    } else {
        let diagnostics = text::trim_end(stderr);
        SimtopError::new(
            ErrorCode::CommandFailed,
            cat3(message, "; stderr:\n", diagnostics.as_str()).as_str(),
        )
    }
}

// ---------------------------------------------------------------------------
// Settings
// ---------------------------------------------------------------------------

/// What [`String::from_utf8`] says about bytes that are no UTF-8.
pub uninterp spec fn utf8_error(bytes: Seq<u8>) -> Seq<char>;

/// Calls [`String::from_utf8`]: the text when the bytes are UTF-8, and otherwise
/// the text of its error, named by [`utf8_error`].
#[verifier::external_body]
fn decode_utf8(bytes: Vec<u8>) -> (r: Result<String, String>)
    ensures
        match r {
            Ok(s) => vstd::utf8::valid_utf8(bytes@) && s@ == vstd::utf8::decode_utf8(bytes@),
            Err(e) => !vstd::utf8::valid_utf8(bytes@) && e@ == utf8_error(bytes@),
        },
{
    String::from_utf8(bytes).map_err(|error| error.to_string())
}

/// Build settings as they are read.
#[derive(Debug, PartialEq, Eq)]
pub struct SettingsBuffer {
    bytes: Vec<u8>,
}

impl View for SettingsBuffer {
    type V = Seq<u8>;

    closed spec fn view(&self) -> Seq<u8> {
        self.bytes@
    }
}

/// The text of build settings.
pub open spec fn settings_text(bytes: Seq<u8>) -> Result<Seq<char>, error::Failure> {
    if vstd::utf8::valid_utf8(bytes) {
        Ok(vstd::utf8::decode_utf8(bytes))
    } else {
        Err(
            error::failure_from(
                ErrorCode::ParseError,
                "xcodebuild build settings were not valid UTF-8"@,
                utf8_error(bytes),
            ),
        )
    }
}

impl SettingsBuffer {
    /// Nothing read so far.
    pub fn new() -> (r: Self)
        ensures
            r@ == Seq::<u8>::empty(),
    {
        SettingsBuffer { bytes: Vec::new() }
    }

    /// Takes in what was read; refused when the settings grow too long.
    pub fn push(&mut self, chunk: &Vec<u8>) -> (r: Result<(), SimtopError>)
        ensures
            match r {
                Ok(_) => old(self)@.len() + chunk@.len() <= MAX_SETTINGS_BYTES && final(self)@
                    == old(self)@ + chunk@,
                Err(e) => old(self)@.len() + chunk@.len() > MAX_SETTINGS_BYTES && final(self)@
                    == old(self)@ && e@ == error::failure(
                    ErrorCode::ParseError,
                    "xcodebuild build settings exceeded 8388608 bytes"@,
                ),
            },
    {
        let held: usize = self.bytes.len();
        let more: usize = chunk.len();
        if held > MAX_SETTINGS_BYTES || more > MAX_SETTINGS_BYTES - held {
            return Err(
                SimtopError::new(
                    ErrorCode::ParseError,
                    "xcodebuild build settings exceeded 8388608 bytes",
                ),
            );
        }
        let ghost before = self.bytes@;
        let mut i: usize = 0;
        assert(chunk@.take(0) =~= Seq::empty());
        while i < chunk.len()
            invariant
                i <= chunk@.len(),
                self.bytes@ == before + chunk@.take(i as int),
            decreases chunk@.len() - i,
        {
            assert(chunk@.take(i + 1) =~= chunk@.take(i as int).push(chunk@[i as int]));
            self.bytes.push(chunk[i]);
            assert(self.bytes@ =~= before + chunk@.take(i + 1));
            i = i + 1;
        }
        assert(chunk@.take(i as int) =~= chunk@);
        Ok(())
    }

    /// The settings, when they are text.
    pub fn finish(self) -> (r: Result<String, SimtopError>)
        ensures
            error::outcome(r) == settings_text(self@),
    {
        match decode_utf8(self.bytes) {
            Ok(s) => Ok(s),
            Err(error) => Err(
                SimtopError::with_source(
                    ErrorCode::ParseError,
                    "xcodebuild build settings were not valid UTF-8",
                    error.as_str(),
                ),
            ),
        }
    }
}

/// A line that is complete is shown without its line break and nothing of the line before
/// it; one that was cut says so.
pub proof fn lines_end_at_line_feeds(before: Seq<u8>, line: Seq<u8>)
    requires
        line.len() <= MAX_OUTPUT_LINE_BYTES,
        forall|i: int| 0 <= i < line.len() ==> line[i] != 10,
    ensures
        UnfinishedLine::empty().after_all(before.push(10) + line) == (UnfinishedLine {
            kept: line,
            truncated: false,
        }),
        line_of(line, false) == text::without_return(simctl::lossy_text(line)),
        line_of(line, true) == text::without_return(simctl::lossy_text(line))
            + " [line truncated]"@,
    decreases line.len(),
{
    let all = before.push(10) + line;
    if line.len() == 0 {
        assert(all =~= before.push(10));
        assert(all.last() == 10);
        assert(line =~= Seq::empty());
    } else {
        lines_end_at_line_feeds(before, line.drop_last());
        assert(all.drop_last() =~= before.push(10) + line.drop_last());
        assert(all.last() == line.last());
        assert(line[line.len() - 1] != 10);
        assert(line.drop_last().push(line.last()) =~= line);
    }
}

/// A failed command tells what it wrote to standard error, without the blanks at its end,
/// behind the message; without any the message stands alone.
pub proof fn failed_commands_tell_their_diagnostics(message: Seq<char>, stderr: Seq<char>)
    ensures
        failed_command(message, stderr).code == ErrorCode::CommandFailed,
        text::has_prefix(failed_command(message, stderr).message, message),
        text::is_blank(stderr) ==> failed_command(message, stderr).message == message,
        !text::is_blank(stderr) ==> text::has_part(
            failed_command(message, stderr).message,
            text::trimmed_end(stderr),
        ),
{
    let shown = failed_command(message, stderr).message;
    assert(shown.subrange(0, message.len() as int) =~= message);
    if !text::is_blank(stderr) {
        let told = text::trimmed_end(stderr);
        let at = (message + "; stderr:\n"@).len() as int;
        assert(shown.subrange(at, at + told.len()) =~= told);
        assert(text::occurs_at(shown, told, at));
    }
}

/// Diagnostics keep a line that fits, with a line feed behind it, and never change what they
/// hold already; once they are full nothing is added.
pub proof fn diagnostics_keep_their_lines(held: Seq<char>, line: Seq<char>)
    ensures
        width(held) + width(line) < MAX_STDERR_BYTES ==> with_line(held, line) == held + line
            + "\n"@,
        width(held) >= MAX_STDERR_BYTES ==> with_line(held, line) == held,
        text::has_prefix(with_line(held, line), held),
{
    let after = with_line(held, line);
    assert(after.subrange(0, held.len() as int) =~= held);
}

} // verus!
