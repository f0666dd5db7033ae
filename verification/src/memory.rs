//! The memory accessor: a handle on one process, what the outcome of one
//! vectored transfer means, and the start of a string scan.
//!
//! The accessor makes no system call. Its caller runs the process listing
//! and the transfers, and hands over what came back: the lines of the
//! listing, the transfer count that the operating system reported, the
//! buffer that it filled.

use vstd::prelude::*;
use vstd::string::*;
pub use crate::error::Error;
use crate::listing::{chars_of, examine, locate, Located};
use crate::scan::{ScanModel, ScanStep, StringScan};

verus! {

/// A half-open interval `[start, end)` of addresses in the target process.
pub type MemoryRange = core::ops::Range<u64>;

/// A handle on one running process.
pub struct MemoryReader {
    /// Process identifier
    pub process_id: i32,
}

/// What a read at `address` into a buffer that now holds `data` amounts to
/// when the operating system reports `transferred` as its transfer count:
/// a failure for a negative count, the data for a count that is their
/// length, a partial read of that count for any other.
pub open spec fn read_outcome(address: usize, data: Seq<u8>, transferred: int) -> Result<
    Seq<u8>,
    Error,
> {
    if transferred < 0 {
        Err(Error::ReadMemoryFailed(address))
    } else if transferred != data.len() {
        Err(Error::ReadMemoryPartial(address, transferred as usize))
    } else {
        Ok(data)
    }
}

/// What a write of `len` bytes at `address` amounts to when the operating
/// system reports `transferred` as its transfer count.
pub open spec fn write_outcome(address: usize, len: int, transferred: int) -> Result<(), Error> {
    if transferred < 0 {
        Err(Error::WriteMemoryFailed(address))
    } else if transferred != len {
        Err(Error::WriteMemoryPartial(address, transferred as usize))
    } else {
        Ok(())
    }
}

/// `r` is what a search for the process `name` returns when it ended in
/// `found`.
pub open spec fn answers(r: Result<i32, Error>, found: Located, name: Seq<char>) -> bool {
    match found {
        Located::Found(pid) => r == Ok::<i32, Error>(pid),
        Located::Malformed(why) => r == Err::<i32, Error>(Error::ParseInt(why)),
        Located::Unreadable(e) => r == Err::<i32, Error>(Error::IOError(e)),
        Located::Missing => r matches Err(Error::ProcessNotFound(n)) && n@ == name,
    }
}

impl MemoryReader {
    /// Create a new memory reader for given process name, from the lines of
    /// a process listing.
    pub fn new(process_name: &str, lines: Vec<Result<String, std::io::Error>>) -> (r: Result<
        Self,
        Error,
    >)
        ensures
            answers(
                match r {
                    Ok(reader) => Ok(reader.process_id),
                    Err(e) => Err(e),
                },
                locate(process_name@, lines@),
                process_name@,
            ),
    {
        match Self::find_process(process_name, lines) {
            Ok(process_id) => Ok(MemoryReader { process_id }),
            Err(e) => Err(e),
        }
    }

    /// The shell command whose output is the process listing to search for
    /// `name`. The name stands in double quotes, so that white space in it
    /// does not split it.
    pub fn listing_command(name: &str) -> (command: String)
        ensures
            command@ == "sudo ps -e | grep -w \""@ + name@ + "\""@,
    {
        let mut command = String::from_str("sudo ps -e | grep -w \"");
        command.append(name);
        command.append("\"");
        command
    }

    /// Find a process by name in the lines of a process listing: the
    /// identifier at the start of the first line that names it.
    pub fn find_process(name: &str, lines: Vec<Result<String, std::io::Error>>) -> (r: Result<
        i32,
        Error,
    >)
        ensures
            answers(r, locate(name@, lines@), name@),
    {
        let wanted = chars_of(name);
        assert(lines@.skip(0) == lines@);
        for item in it: lines
            invariant
                it.seq() == lines@,
                wanted@ == name@,
                locate(name@, lines@) == locate(name@, lines@.skip(it.index() as int)),
        {
            proof {
                let rest = lines@.skip(it.index() as int);
                assert(rest.drop_first() == lines@.skip(it.index() + 1));
            }
            match item {
                Err(e) => {
                    return Err(Error::IOError(e));
                },
                Ok(line) => match examine(line.as_str(), &wanted) {
                    Some(Ok(process_id)) => {
                        return Ok(process_id);
                    },
                    Some(Err(why)) => {
                        return Err(Error::ParseInt(why));
                    },
                    None => {},
                },
            }
        }
        Err(Error::ProcessNotFound(name.to_owned()))
    }

    /// Says what a read at `address` came to. `buffer` is the buffer that
    /// was handed to the operating system, of the length that was asked for,
    /// and `transferred` the transfer count that it reported.
    pub fn read_bytes(&self, address: usize, buffer: Vec<u8>, transferred: isize) -> (r: Result<
        Vec<u8>,
        Error,
    >)
        ensures
            match read_outcome(address, buffer@, transferred as int) {
                Ok(data) => r matches Ok(v) && v@ == data,
                Err(e) => r == Err::<Vec<u8>, Error>(e),
            },
            transferred < 0 ==> r == Err::<Vec<u8>, Error>(Error::ReadMemoryFailed(address)),
            0 <= transferred < buffer@.len() ==> r == Err::<Vec<u8>, Error>(
                Error::ReadMemoryPartial(address, transferred as usize),
            ),
            r matches Ok(v) ==> v@ == buffer@ && transferred == buffer@.len(),
    {
        if transferred < 0 {
            Err(Error::ReadMemoryFailed(address))
        } else if transferred as usize != buffer.len() {
            Err(Error::ReadMemoryPartial(address, transferred as usize))
        } else {
            Ok(buffer)
        }
    }

    /// Starts reading the null-terminated string that lies in `range`: the
    /// first read to make, or the result where the range is empty.
    pub fn read_string(&self, range: MemoryRange) -> (step: ScanStep)
        ensures
            step@ == ScanModel::initial(range).proceed(),
    {
        StringScan::begin(range)
    }

    /// Says what a write of `data` at `address` came to, where
    /// `transferred` is the transfer count that the operating system
    /// reported.
    pub fn write_bytes(&self, address: usize, data: &[u8], transferred: isize) -> (r: Result<
        (),
        Error,
    >)
        ensures
            r == write_outcome(address, data@.len() as int, transferred as int),
            transferred < 0 ==> r == Err::<(), Error>(Error::WriteMemoryFailed(address)),
            0 <= transferred < data@.len() ==> r == Err::<(), Error>(
                Error::WriteMemoryPartial(address, transferred as usize),
            ),
            r is Ok <==> transferred == data@.len(),
    {
        if transferred < 0 {
            Err(Error::WriteMemoryFailed(address))
        } else if transferred as usize != data.len() {
            Err(Error::WriteMemoryPartial(address, transferred as usize))
        } else {
            Ok(())
        }
    }
}

/// What was written in full is what a full read of the same bytes returns:
/// the accessor adds nothing to the bytes and takes nothing away.
pub proof fn lemma_round_trip(address: usize, data: Seq<u8>)
    ensures
        write_outcome(address, data.len() as int, data.len() as int) == Ok::<(), Error>(()),
        read_outcome(address, data, data.len() as int) == Ok::<Seq<u8>, Error>(data),
{
}

} // verus!
