//! The library's failure taxonomy: malformed data versus a failing byte
//! source.

use vstd::prelude::*;
use vstd::string::{StrSliceExecFns, StringExecFns};

verus! {

/// Declares `std::io::Error` so that it can stand in fields and signatures.
/// The value is opaque to the library; it is only stored and handed back.
#[verifier::external_type_specification]
#[verifier::external_body]
pub struct ExIoError(std::io::Error);

/// Error type for the library.
#[derive(Debug)]
pub enum Error {
    /// Some unexpected data was encountered while reading a file.
    FormatError(String),
    /// An I/O error was encountered while reading / writing an image.
    IoError(std::io::Error),
}

/// Relies on `std::io::Error::new` to build the error a short read reports.
/// The value is opaque; no contract speaks of it.
#[verifier::external_body]
pub(crate) fn unexpected_eof() -> std::io::Error {
    std::io::Error::new(std::io::ErrorKind::UnexpectedEof, "failed to fill whole buffer")
}

/// Relies on `format!` (core::fmt) to render the two sizes into the
/// advisory text of a malformed-data error; no contract speaks of the text.
#[verifier::external_body]
pub(crate) fn size_mismatch_message(what: &str, expected: u32, found: u32) -> String {
    format!("{} size mismatch. Expected: {} bytes, found: {} bytes.", what, expected, found)
}

impl core::convert::From<std::io::Error> for Error {
    fn from(err: std::io::Error) -> (r: Error)
        ensures
            r == Error::IoError(err),
    {
        Error::IoError(err)
    }
}

impl vstd::std_specs::convert::FromSpecImpl<std::io::Error> for Error {
    open spec fn obeys_from_spec() -> bool {
        true
    }

    open spec fn from_spec(err: std::io::Error) -> Error {
        Error::IoError(err)
    }
}

/// What a character contributes to the quoted rendering of a message:
/// backslashes and both quote characters get a leading backslash, everything
/// else stands as it is.
pub open spec fn spec_escape_char(c: char) -> Seq<char> {
    if c == '\\' || c == '"' || c == '\'' {
        seq!['\\', c]
    } else {
        seq![c]
    }
}

/// A message with every backslash and quote character escaped.
pub open spec fn spec_escape(s: Seq<char>) -> Seq<char>
    decreases s.len(),
{
    if s.len() == 0 {
        Seq::empty()
    } else {
        spec_escape(s.drop_last()) + spec_escape_char(s.last())
    }
}

/// The developer-facing rendering of a malformed-data error: the variant
/// name, then the message in quotes with backslashes and quotes escaped.
pub open spec fn spec_debug_render(m: Seq<char>) -> Seq<char> {
    "FormatError(\""@ + spec_escape(m) + "\")"@
}

/// Relies on `String::push`: appends exactly one character.
#[verifier::external_body]
fn push_char(s: &mut String, c: char)
    ensures
        final(s)@ == old(s)@.push(c),
{
    s.push(c);
}

/// Copies a message, putting a backslash before every backslash and quote
/// character.
fn escaped(msg: &str) -> (r: String)
    ensures
        r@ == spec_escape(msg@),
{
    let n = msg.unicode_len();
    let mut out = String::new();
    let mut i: usize = 0;
    while i < n
        invariant
            i <= n,
            n == msg@.len(),
            out@ == spec_escape(msg@.subrange(0, i as int)),
        decreases n - i,
    {
        let c = msg.get_char(i);
        let ghost prev = out@;
        if c == '\\' || c == '"' || c == '\'' {
            push_char(&mut out, '\\');
        }
        push_char(&mut out, c);
        i = i + 1;
        proof {
            let sub = msg@.subrange(0, i as int);
            assert(sub.drop_last() =~= msg@.subrange(0, i as int - 1));
            assert(sub.last() == c);
            assert(out@ =~= prev + spec_escape_char(c));
        }
    }
    proof {
        assert(msg@.subrange(0, n as int) =~= msg@);
    }
    out
}

/// Relies on std's `Display` for `std::io::Error` to render a stream error;
/// no contract speaks of the text.
#[verifier::external_body]
fn io_error_message(e: &std::io::Error) -> String {
    format!("{}", e)
}

/// Relies on std's `Debug` for `std::io::Error` to render a stream error;
/// no contract speaks of the text.
#[verifier::external_body]
fn io_error_debug(e: &std::io::Error) -> String {
    format!("IoError({:?})", e)
}

impl Error {
    /// Renders the error as the message it carries: the malformed-data text
    /// itself, or the underlying I/O error's own rendering.
    pub fn message(&self) -> (r: String)
        ensures
            self matches Error::FormatError(m) ==> r@ == m@,
    {
        match self {
            Error::FormatError(m) => m.clone(),
            Error::IoError(e) => io_error_message(e),
        }
    }

    /// Renders the error for developers: the variant name, with a
    /// malformed-data message quoted and escaped.
    pub fn debug_string(&self) -> (r: String)
        ensures
            self matches Error::FormatError(m) ==> r@ == spec_debug_render(m@),
    {
        match self {
            Error::FormatError(m) => {
                let mut out = String::from_str("FormatError(\"");
                out.append(escaped(m.as_str()).as_str());
                out.append("\")");
                proof {
                    assert(out@ =~= spec_debug_render(m@));
                }
                out
            },
            Error::IoError(e) => io_error_debug(e),
        }
    }
}

} // verus!
