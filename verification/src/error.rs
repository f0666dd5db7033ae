//! The failures that locating a process and touching its memory can end in.

use vstd::prelude::*;
use vstd::std_specs::convert::FromSpecImpl;
use vstd::string::*;
use crate::numeral::{numeral, write_numeral};

verus! {

/// An I/O failure reported by the standard library, carried through unread.
#[verifier::external_type_specification]
#[verifier::external_body]
pub struct ExIoError(std::io::Error);

/// A UTF-8 decoding failure reported by the standard library, carried
/// through unread.
#[verifier::external_type_specification]
#[verifier::external_body]
pub struct ExUtf8Error(std::str::Utf8Error);

/// Why a piece of text is not a decimal `i32`.
#[derive(Debug, Clone, Copy, PartialEq, Eq, Structural)]
pub enum IntParseError {
    /// The text is empty.
    Empty,
    /// The text holds something other than an optional sign followed by
    /// decimal digits, or is a sign alone.
    InvalidDigit,
    /// The number is above `i32::MAX`.
    PosOverflow,
    /// The number is below `i32::MIN`.
    NegOverflow,
}

/// A failure of locating a process or of reading or writing its memory.
#[derive(Debug)]
pub enum Error {
    /// Process was not found
    ProcessNotFound(String),
    /// Failed to read memory
    ReadMemoryFailed(usize),
    /// Read memory but was incomplete
    ReadMemoryPartial(usize, usize),
    /// Failed to write memory
    WriteMemoryFailed(usize),
    /// Wrote memory but was incomplete
    WriteMemoryPartial(usize, usize),
    /// IO error
    IOError(std::io::Error),
    /// UTF8 conversion error
    UTF8Conversion(std::str::Utf8Error),
    /// Parse int error
    ParseInt(IntParseError),
    /// Parse str error
    ParseStr(String),
}

impl IntParseError {
    /// What the failure is called in a message.
    pub open spec fn text(self) -> Seq<char> {
        match self {
            IntParseError::Empty => "cannot parse integer from empty string"@,
            IntParseError::InvalidDigit => "invalid digit found in string"@,
            IntParseError::PosOverflow => "number too large to fit in target type"@,
            IntParseError::NegOverflow => "number too small to fit in target type"@,
        }
    }

    /// What the failure is called in a message.
    pub fn description(&self) -> (text: &'static str)
        ensures
            text@ == self.text(),
    {
        match self {
            IntParseError::Empty => "cannot parse integer from empty string",
            IntParseError::InvalidDigit => "invalid digit found in string",
            IntParseError::PosOverflow => "number too large to fit in target type",
            IntParseError::NegOverflow => "number too small to fit in target type",
        }
    }
}

impl Error {
    /// The message of the failure. For a failure that the standard library
    /// reported these are the words that come first; its own words follow.
    pub open spec fn text(self) -> Seq<char> {
        match self {
            Error::ProcessNotFound(name) => "Process '"@ + name@ + "' not found"@,
            Error::ReadMemoryFailed(address) => "Failed to read memory from address 0x"@ + numeral(
                address as nat,
                16,
            ),
            Error::ReadMemoryPartial(address, bytes) => "Partial read: only read "@ + numeral(
                bytes as nat,
                10,
            ) + " bytes from address 0x"@ + numeral(address as nat, 16),
            Error::WriteMemoryFailed(address) => "Failed to write memory at address 0x"@ + numeral(
                address as nat,
                16,
            ),
            Error::WriteMemoryPartial(address, bytes) => "Partial write: only wrote "@ + numeral(
                bytes as nat,
                10,
            ) + " bytes at address 0x"@ + numeral(address as nat, 16),
            Error::IOError(_) => "IO error: "@,
            Error::UTF8Conversion(_) => "UTF8 conversion error: "@,
            Error::ParseInt(why) => "Parse int error: "@ + why.text(),
            Error::ParseStr(what) => "Parse str error: "@ + what@,
        }
    }

    /// The failure in words: addresses in hexadecimal, byte counts in
    /// decimal.
    pub fn message(&self) -> (text: String)
        ensures
            match *self {
                Error::IOError(_) | Error::UTF8Conversion(_) => self.text().is_prefix_of(text@),
                _ => text@ == self.text(),
            },
    {
        match self {
            Error::ProcessNotFound(name) => {
                let mut text = String::from_str("Process '");
                text.append(name.as_str());
                text.append("' not found");
                text
            },
            Error::ReadMemoryFailed(address) => {
                let mut text = String::from_str("Failed to read memory from address 0x");
                write_numeral(&mut text, *address, 16);
                text
            },
            Error::ReadMemoryPartial(address, bytes) => {
                let mut text = String::from_str("Partial read: only read ");
                write_numeral(&mut text, *bytes, 10);
                text.append(" bytes from address 0x");
                write_numeral(&mut text, *address, 16);
                text
            },
            Error::WriteMemoryFailed(address) => {
                let mut text = String::from_str("Failed to write memory at address 0x");
                write_numeral(&mut text, *address, 16);
                text
            },
            Error::WriteMemoryPartial(address, bytes) => {
                let mut text = String::from_str("Partial write: only wrote ");
                write_numeral(&mut text, *bytes, 10);
                text.append(" bytes at address 0x");
                write_numeral(&mut text, *address, 16);
                text
            },
            Error::IOError(e) => {
                let mut text = String::from_str("IO error: ");
                let ghost head = text@;
                text.append(e.to_string().as_str());
                assert(head =~= text@.subrange(0, head.len() as int));
                text
            },
            Error::UTF8Conversion(e) => {
                let mut text = String::from_str("UTF8 conversion error: ");
                let ghost head = text@;
                text.append(e.to_string().as_str());
                assert(head =~= text@.subrange(0, head.len() as int));
                text
            },
            Error::ParseInt(why) => {
                let mut text = String::from_str("Parse int error: ");
                text.append(why.description());
                text
            },
            Error::ParseStr(what) => {
                let mut text = String::from_str("Parse str error: ");
                text.append(what.as_str());
                text
            },
        }
    }
}

impl From<std::io::Error> for Error {
    fn from(err: std::io::Error) -> (e: Error) {
        Error::IOError(err)
    }
}

impl FromSpecImpl<std::io::Error> for Error {
    open spec fn obeys_from_spec() -> bool {
        true
    }

    open spec fn from_spec(err: std::io::Error) -> Error {
        Error::IOError(err)
    }
}

impl From<std::str::Utf8Error> for Error {
    fn from(err: std::str::Utf8Error) -> (e: Error) {
        Error::UTF8Conversion(err)
    }
}

impl FromSpecImpl<std::str::Utf8Error> for Error {
    open spec fn obeys_from_spec() -> bool {
        true
    }

    open spec fn from_spec(err: std::str::Utf8Error) -> Error {
        Error::UTF8Conversion(err)
    }
}

impl From<IntParseError> for Error {
    fn from(err: IntParseError) -> (e: Error) {
        Error::ParseInt(err)
    }
}

impl FromSpecImpl<IntParseError> for Error {
    open spec fn obeys_from_spec() -> bool {
        true
    }

    open spec fn from_spec(err: IntParseError) -> Error {
        Error::ParseInt(err)
    }
}

impl From<&str> for Error {
    fn from(err: &str) -> (e: Error)
        ensures
            e matches Error::ParseStr(text) && text@ == err@,
    {
        Error::ParseStr(err.to_owned())
    }
}

impl FromSpecImpl<&str> for Error {
    open spec fn obeys_from_spec() -> bool {
        false
    }

    open spec fn from_spec(err: &str) -> Error {
        arbitrary()
    }
}

} // verus!
