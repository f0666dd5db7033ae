//! Reading a null-terminated string whose length is not known in advance.
//!
//! The string is looked for chunk by chunk. The reads themselves are made by
//! the caller: a scan says which bytes it wants next ([`ScanStep::Read`]),
//! the caller reads them and hands the outcome to [`StringScan::resume`],
//! until the scan ends ([`ScanStep::Done`]).
//!
//! [`run`] is the whole scan as a mathematical function of what the reads
//! return, and [`lemma_chunking_is_invisible`] shows that over memory that
//! reads back faithfully the result depends on the bytes alone, not on where
//! the chunk boundaries fall.

use vstd::prelude::*;
use vstd::utf8::*;
use vstd::string::*;
use crate::error::Error;
use crate::memory::MemoryRange;

verus! {

/// The number of bytes asked for in one read, and so the most that is read
/// past the terminator.
pub const CHUNK_SIZE: usize = 256;

/// A scan in progress: the range, how far it has come, and the bytes
/// gathered so far.
pub struct StringScan {
    start: usize,
    end: usize,
    cursor: usize,
    buffer: Vec<u8>,
}

/// What a scan asks of its caller, or what it ended in.
pub enum ScanStep {
    /// Read `len` bytes at `address` and hand the outcome to
    /// [`StringScan::resume`] on `scan`.
    Read { scan: StringScan, address: usize, len: usize },
    /// The scan is over.
    Done(Result<String, Error>),
}

/// The mathematical content of a [`StringScan`].
pub struct ScanModel {
    /// First address of the range.
    pub start: usize,
    /// First address past the range.
    pub end: usize,
    /// The address of the next byte to read.
    pub cursor: usize,
    /// The bytes gathered so far.
    pub text: Seq<u8>,
}

/// The mathematical content of a [`ScanStep`].
pub enum StepModel {
    Read { scan: ScanModel, address: usize, len: usize },
    Done(Result<Seq<char>, Error>),
}

impl View for StringScan {
    type V = ScanModel;

    closed spec fn view(&self) -> ScanModel {
        ScanModel { start: self.start, end: self.end, cursor: self.cursor, text: self.buffer@ }
    }
}

impl View for ScanStep {
    type V = StepModel;

    open spec fn view(&self) -> StepModel {
        match *self {
            ScanStep::Read { scan, address, len } => StepModel::Read { scan: scan@, address, len },
            ScanStep::Done(Ok(s)) => StepModel::Done(Ok(s@)),
            ScanStep::Done(Err(e)) => StepModel::Done(Err(e)),
        }
    }
}

/// The outcome of one read as the scan sees it: the bytes, or the failure.
pub open spec fn chunk_view(chunk: Result<Vec<u8>, Error>) -> Result<Seq<u8>, Error> {
    match chunk {
        Ok(bytes) => Ok(bytes@),
        Err(e) => Err(e),
    }
}

/// The index of the first zero byte of `bytes`, or their number where none
/// of them is zero.
pub open spec fn terminator(bytes: Seq<u8>) -> int
    decreases bytes.len(),
{
    if bytes.len() == 0 || bytes[0] == 0 {
        0
    } else {
        1 + terminator(bytes.drop_first())
    }
}

/// `k` is where [`terminator`] points: nothing before `k` is zero, and `k`
/// is either a zero byte or the end.
pub open spec fn ends_at(bytes: Seq<u8>, k: int) -> bool {
    &&& 0 <= k <= bytes.len()
    &&& forall|j: int| 0 <= j < k ==> bytes[j] != 0
    &&& k < bytes.len() ==> bytes[k] == 0
}

/// What a scan that began at `start` reports once it has gathered `text`:
/// a failure where the bytes are not UTF-8, the decoded string where a
/// terminator ended them, and otherwise a partial read of their length.
pub open spec fn conclude(start: usize, text: Seq<u8>, terminated: bool) -> Result<
    Seq<char>,
    Error,
> {
    if !valid_utf8(text) {
        Err(Error::ReadMemoryFailed(start))
    } else if terminated {
        Ok(decode_utf8(text))
    } else {
        Err(Error::ReadMemoryPartial(start, text.len() as usize))
    }
}

impl ScanModel {
    /// The scan of `range` before anything was read.
    pub open spec fn initial(range: MemoryRange) -> ScanModel {
        ScanModel {
            start: range.start as usize,
            end: range.end as usize,
            cursor: range.start as usize,
            text: Seq::empty(),
        }
    }

    /// The length of the next read: a whole chunk, or what is left of the
    /// range where that is less.
    pub open spec fn wanted(self) -> int {
        if self.cursor >= self.end {
            0
        } else if self.end - self.cursor < CHUNK_SIZE {
            self.end - self.cursor
        } else {
            CHUNK_SIZE as int
        }
    }

    /// The scan after a whole chunk without a terminator.
    pub open spec fn advanced(self, bytes: Seq<u8>) -> ScanModel {
        ScanModel {
            cursor: (self.cursor + self.wanted()) as usize,
            text: self.text + bytes,
            ..self
        }
    }

    /// What the scan does next: another read while the range is not used
    /// up, else the end without a terminator.
    pub open spec fn proceed(self) -> StepModel {
        if self.cursor < self.end {
            StepModel::Read { scan: self, address: self.cursor, len: self.wanted() as usize }
        } else {
            StepModel::Done(conclude(self.start, self.text, false))
        }
    }

    /// What the scan does with the outcome of the read it asked for.
    ///
    /// A failed read ends the scan with that failure. A chunk with a zero
    /// byte ends it with the bytes before the first zero. A chunk shorter
    /// than asked for ends it without a terminator. Any other chunk is
    /// gathered whole and the scan moves on by the length it asked for.
    pub open spec fn feed(self, chunk: Result<Seq<u8>, Error>) -> StepModel {
        match chunk {
            Err(e) => StepModel::Done(Err(e)),
            Ok(bytes) => {
                let z = terminator(bytes);
                if z < bytes.len() {
                    StepModel::Done(conclude(self.start, self.text + bytes.take(z), true))
                } else if bytes.len() < self.wanted() {
                    StepModel::Done(conclude(self.start, self.text + bytes, false))
                } else {
                    self.advanced(bytes).proceed()
                }
            },
        }
    }
}

/// The whole of a scan, where `reads(address, len)` is what a read of `len`
/// bytes at `address` returns.
pub open spec fn run(
    scan: ScanModel,
    reads: spec_fn(usize, usize) -> Result<Seq<u8>, Error>,
) -> Result<Seq<char>, Error>
    decreases scan.end - scan.cursor,
{
    match scan.proceed() {
        StepModel::Done(r) => r,
        StepModel::Read { address, len, .. } => match scan.feed(reads(address, len)) {
            StepModel::Done(r) => r,
            StepModel::Read { scan: next, .. } => run(next, reads),
        },
    }
}

/// Every read inside `[start, start + memory.len())` succeeds and returns
/// the bytes that `memory` holds there.
pub open spec fn faithful(
    reads: spec_fn(usize, usize) -> Result<Seq<u8>, Error>,
    start: usize,
    memory: Seq<u8>,
) -> bool {
    forall|address: usize, len: usize|
        start <= address && address + len <= start + memory.len() ==> #[trigger] reads(
            address,
            len,
        ) == Ok::<Seq<u8>, Error>(memory.subrange(address - start, address - start + len))
}

/// [`terminator`] points at the first zero byte, or at the end.
pub proof fn lemma_terminator(bytes: Seq<u8>)
    ensures
        ends_at(bytes, terminator(bytes)),
    decreases bytes.len(),
{
    if bytes.len() == 0 || bytes[0] == 0 {
    } else {
        let rest = bytes.drop_first();
        lemma_terminator(rest);
        let t = terminator(rest);
        assert forall|j: int| 0 <= j < 1 + t implies bytes[j] != 0 by {
            if j > 0 {
                assert(bytes[j] == rest[j - 1]);
            }
        }
        if 1 + t < bytes.len() {
            assert(bytes[1 + t] == rest[t]);
        }
    }
}

/// Only one index is the first zero byte or the end.
pub proof fn lemma_terminator_unique(bytes: Seq<u8>, k: int)
    requires
        ends_at(bytes, k),
    ensures
        terminator(bytes) == k,
{
    lemma_terminator(bytes);
    let t = terminator(bytes);
    if t < k {
        assert(bytes[t] != 0);
    } else if k < t {
        assert(bytes[k] != 0);
    }
}

/// The scan from any point reached over faithful memory, before a zero
/// byte was met.
proof fn lemma_run_over_memory(
    scan: ScanModel,
    reads: spec_fn(usize, usize) -> Result<Seq<u8>, Error>,
    memory: Seq<u8>,
)
    requires
        scan.start <= scan.cursor <= scan.end,
        memory.len() == scan.end - scan.start,
        faithful(reads, scan.start, memory),
        scan.text == memory.take(scan.cursor - scan.start),
        forall|j: int| 0 <= j < scan.cursor - scan.start ==> memory[j] != 0,
    ensures
        run(scan, reads) == conclude(
            scan.start,
            memory.take(terminator(memory)),
            terminator(memory) < memory.len(),
        ),
    decreases scan.end - scan.cursor,
{
    let done = scan.cursor - scan.start;
    if scan.cursor >= scan.end {
        lemma_terminator_unique(memory, done);
        assert(memory.take(done) == memory);
    } else {
        let len = scan.wanted();
        let bytes = memory.subrange(done, done + len);
        assert(reads(scan.cursor, len as usize) == Ok::<Seq<u8>, Error>(bytes));
        lemma_terminator(bytes);
        let z = terminator(bytes);
        if z < len {
            assert forall|j: int| 0 <= j < done + z implies memory[j] != 0 by {
                if j >= done {
                    assert(memory[j] == bytes[j - done]);
                }
            }
            assert(memory[done + z] == bytes[z]);
            lemma_terminator_unique(memory, done + z);
            assert(scan.text + bytes.take(z) == memory.take(done + z));
        } else {
            let next = scan.advanced(bytes);
            assert forall|j: int| 0 <= j < done + len implies memory[j] != 0 by {
                if j >= done {
                    assert(memory[j] == bytes[j - done]);
                }
            }
            assert(next.text == memory.take(done + len));
            lemma_run_over_memory(next, reads, memory);
            if next.cursor >= next.end {
                assert(run(next, reads) == next.proceed()->Done_0);
            }
        }
    }
}

/// Over memory that reads back faithfully, a scan of a range gives what the
/// bytes of the range say: the text before the first zero byte where there
/// is one, a partial read of the whole range where there is none. Where the
/// chunk boundaries fall makes no difference, and nothing after the first
/// zero byte does.
pub proof fn lemma_chunking_is_invisible(
    range: MemoryRange,
    memory: Seq<u8>,
    reads: spec_fn(usize, usize) -> Result<Seq<u8>, Error>,
)
    requires
        ScanModel::initial(range).start <= ScanModel::initial(range).end,
        memory.len() == ScanModel::initial(range).end - ScanModel::initial(range).start,
        faithful(reads, ScanModel::initial(range).start, memory),
    ensures
        run(ScanModel::initial(range), reads) == conclude(
            ScanModel::initial(range).start,
            memory.take(terminator(memory)),
            terminator(memory) < memory.len(),
        ),
{
    let scan = ScanModel::initial(range);
    assert(scan.text == memory.take(0));
    lemma_run_over_memory(scan, reads, memory);
}

/// A read that fails ends the scan with that failure, whatever was gathered
/// before.
pub proof fn lemma_failed_read_ends_scan(
    scan: ScanModel,
    reads: spec_fn(usize, usize) -> Result<Seq<u8>, Error>,
)
    requires
        scan.cursor < scan.end,
        reads(scan.cursor, scan.wanted() as usize) is Err,
    ensures
        run(scan, reads) == Err::<Seq<char>, Error>(
            reads(scan.cursor, scan.wanted() as usize)->Err_0,
        ),
{
}

/// `String::from_utf8`: the bytes as a string where they are valid UTF-8,
/// and nothing where they are not. What valid UTF-8 is, and which characters
/// it stands for, is taken from `vstd::utf8`.
#[verifier::external_body]
fn decode(bytes: Vec<u8>) -> (r: Option<String>)
    ensures
        r is Some <==> valid_utf8(bytes@),
        r matches Some(s) ==> s@ == decode_utf8(bytes@),
{
    String::from_utf8(bytes).ok()
}

/// Ends a scan that began at `start` and gathered `buffer`.
fn finish(start: usize, buffer: Vec<u8>, terminated: bool) -> (step: ScanStep)
    ensures
        step@ == StepModel::Done(conclude(start, buffer@, terminated)),
{
    let ghost text = buffer@;
    match decode(buffer) {
        None => ScanStep::Done(Err(Error::ReadMemoryFailed(start))),
        Some(s) => {
            if terminated {
                ScanStep::Done(Ok(s))
            } else {
                proof {
                    decode_utf8_encode_utf8(text);
                }
                ScanStep::Done(Err(Error::ReadMemoryPartial(start, s.as_str().len())))
            }
        },
    }
}

/// The index of the first zero byte of `bytes`, or their number.
fn find_terminator(bytes: &Vec<u8>) -> (at: usize)
    ensures
        at == terminator(bytes@),
{
    let mut at: usize = 0;
    while at < bytes.len() && bytes[at] != 0
        invariant
            at <= bytes.len(),
            forall|j: int| 0 <= j < at ==> bytes@[j] != 0,
        decreases bytes.len() - at,
    {
        at += 1;
    }
    proof {
        lemma_terminator_unique(bytes@, at as int);
    }
    at
}

impl StringScan {
    /// The length of the next read.
    fn wanted(&self) -> (n: usize)
        ensures
            n == self@.wanted(),
    {
        if self.cursor >= self.end {
            0
        } else if self.end - self.cursor < CHUNK_SIZE {
            self.end - self.cursor
        } else {
            CHUNK_SIZE
        }
    }

    /// Asks for the next read, or ends the scan where the range is used up.
    fn proceed(self) -> (step: ScanStep)
        ensures
            step@ == self@.proceed(),
    {
        if self.cursor < self.end {
            let address = self.cursor;
            let len = self.wanted();
            ScanStep::Read { scan: self, address, len }
        } else {
            finish(self.start, self.buffer, false)
        }
    }

    /// Starts a scan of `range`.
    pub(crate) fn begin(range: MemoryRange) -> (step: ScanStep)
        ensures
            step@ == ScanModel::initial(range).proceed(),
    {
        let start = #[verifier::truncate] (range.start as usize);
        let end = #[verifier::truncate] (range.end as usize);
        let scan = StringScan { start, end, cursor: start, buffer: Vec::new() };
        scan.proceed()
    }

    /// Takes the outcome of the read that the scan asked for, and says what
    /// comes next.
    pub fn resume(self, chunk: Result<Vec<u8>, Error>) -> (step: ScanStep)
        ensures
            step@ == self@.feed(chunk_view(chunk)),
    {
        let mut scan = self;
        match chunk {
            Err(e) => ScanStep::Done(Err(e)),
            Ok(bytes) => {
                let mut bytes = bytes;
                let ghost chunk_bytes = bytes@;
                let z = find_terminator(&bytes);
                if z < bytes.len() {
                    bytes.truncate(z);
                    scan.buffer.append(&mut bytes);
                    finish(scan.start, scan.buffer, true)
                } else {
                    let wanted = scan.wanted();
                    let short = bytes.len() < wanted;
                    scan.buffer.append(&mut bytes);
                    if short {
                        finish(scan.start, scan.buffer, false)
                    } else {
                        scan.cursor = scan.cursor + wanted;
                        scan.proceed()
                    }
                }
            },
        }
    }
}

} // verus!
