//! Reading a process listing: one line per process, the process identifier
//! as the first token of the line.
//!
//! A line names a process where the name stands in it with white space, or
//! an end of the line, on both sides. White space inside the name is part of
//! the name. The identifier is the first token of such a line, read as a
//! decimal `i32`.

use vstd::prelude::*;
use vstd::string::*;
use crate::error::IntParseError;

verus! {

/// The characters that separate tokens: those with the Unicode property
/// `White_Space`.
pub open spec fn is_space(c: char) -> bool {
    let u = c as u32;
    ||| 0x09 <= u <= 0x0D
    ||| u == 0x20
    ||| u == 0x85
    ||| u == 0xA0
    ||| u == 0x1680
    ||| 0x2000 <= u <= 0x200A
    ||| u == 0x2028
    ||| u == 0x2029
    ||| u == 0x202F
    ||| u == 0x205F
    ||| u == 0x3000
}

/// The number of characters at the front of `s` that are white space
/// (`space` is true) or that are not (`space` is false).
pub open spec fn run_length(s: Seq<char>, space: bool) -> int
    decreases s.len(),
{
    if s.len() == 0 || is_space(s[0]) != space {
        0
    } else {
        1 + run_length(s.drop_first(), space)
    }
}

/// The first token of `line`: what stands between the leading white space
/// and the next white space. It is empty where the line is blank.
pub open spec fn first_token(line: Seq<char>) -> Seq<char> {
    let rest = line.skip(run_length(line, true));
    rest.take(run_length(rest, false))
}

/// `name` stands in `line` at index `at`, with white space or an end of the
/// line on both sides.
pub open spec fn stands_at(line: Seq<char>, name: Seq<char>, at: int) -> bool {
    &&& 0 <= at
    &&& at + name.len() <= line.len()
    &&& line.subrange(at, at + name.len()) == name
    &&& (at == 0 || is_space(line[at - 1]))
    &&& (at + name.len() == line.len() || is_space(line[at + name.len()]))
}

/// `line` names the process `name`.
pub open spec fn mentions(line: Seq<char>, name: Seq<char>) -> bool {
    exists|at: int| stands_at(line, name, at)
}

/// `c` is one of the ten decimal digits.
pub open spec fn is_digit(c: char) -> bool {
    0x30 <= c as u32 <= 0x39
}

/// The number that a run of decimal digits stands for.
pub open spec fn decimal(digits: Seq<char>) -> nat
    decreases digits.len(),
{
    if digits.len() == 0 {
        0
    } else {
        (10 * decimal(digits.drop_last()) + (digits.last() as u32 - 0x30)) as nat
    }
}

/// Every character of `s` is a decimal digit.
pub open spec fn all_digits(s: Seq<char>) -> bool {
    forall|i: int| 0 <= i < s.len() ==> is_digit(#[trigger] s[i])
}

/// `text` read as a decimal `i32`: an optional `+` or `-`, then one or more
/// digits and nothing else, the number within the range of `i32`.
pub open spec fn parse_i32(text: Seq<char>) -> Result<i32, IntParseError> {
    if text.len() == 0 {
        Err(IntParseError::Empty)
    } else {
        let signed = text[0] == '-' || text[0] == '+';
        let digits = if signed {
            text.drop_first()
        } else {
            text
        };
        if digits.len() == 0 || !all_digits(digits) {
            Err(IntParseError::InvalidDigit)
        } else if text[0] == '-' {
            if decimal(digits) > 0x8000_0000 {
                Err(IntParseError::NegOverflow)
            } else {
                Ok((-decimal(digits)) as i32)
            }
        } else if decimal(digits) > 0x7fff_ffff {
            Err(IntParseError::PosOverflow)
        } else {
            Ok(decimal(digits) as i32)
        }
    }
}

/// What one line of the listing says of the process `name`: nothing, where
/// the line does not name it or is blank, else its first token read as a
/// process identifier.
pub open spec fn line_pid(line: Seq<char>, name: Seq<char>) -> Option<Result<i32, IntParseError>> {
    if mentions(line, name) && first_token(line).len() > 0 {
        Some(parse_i32(first_token(line)))
    } else {
        None
    }
}

/// How a search through a process listing ends.
pub enum Located {
    /// The first line that names the process begins with this identifier.
    Found(i32),
    /// The first line that names the process begins with a token that is
    /// no `i32`.
    Malformed(IntParseError),
    /// A line could not be read before any line named the process.
    Unreadable(std::io::Error),
    /// No line names the process.
    Missing,
}

/// The search for the process `name` through `lines`, from the first line
/// on: the first line that could not be read, or that names the process
/// and is not blank, decides.
pub open spec fn locate(name: Seq<char>, lines: Seq<Result<String, std::io::Error>>) -> Located
    decreases lines.len(),
{
    if lines.len() == 0 {
        Located::Missing
    } else {
        match lines[0] {
            Err(e) => Located::Unreadable(e),
            Ok(line) => match line_pid(line@, name) {
                Some(Ok(pid)) => Located::Found(pid),
                Some(Err(why)) => Located::Malformed(why),
                None => locate(name, lines.drop_first()),
            },
        }
    }
}

/// The first line that says anything of the process decides, however many
/// lines after it name the process too: where line `k` names the process
/// and every line before it can be read and says nothing of it, the search
/// ends in what line `k` says.
pub proof fn lemma_first_match_decides(
    name: Seq<char>,
    lines: Seq<Result<String, std::io::Error>>,
    k: int,
)
    requires
        0 <= k < lines.len(),
        forall|i: int|
            0 <= i < k ==> (#[trigger] lines[i]) is Ok && line_pid(lines[i]->Ok_0@, name) is None,
        lines[k] is Ok,
        line_pid(lines[k]->Ok_0@, name) is Some,
    ensures
        locate(name, lines) == match line_pid(lines[k]->Ok_0@, name)->Some_0 {
            Ok(pid) => Located::Found(pid),
            Err(why) => Located::Malformed(why),
        },
    decreases k,
{
    if k > 0 {
        let rest = lines.drop_first();
        assert(lines[0] is Ok);
        assert forall|i: int| 0 <= i < k - 1 implies (#[trigger] rest[i]) is Ok && line_pid(
            rest[i]->Ok_0@,
            name,
        ) is None by {
            assert(rest[i] == lines[i + 1]);
        }
        lemma_first_match_decides(name, rest, k - 1);
    }
}

/// A listing that can be read to its end and in which no line names the
/// process ends the search with nothing found.
pub proof fn lemma_absent_is_missing(name: Seq<char>, lines: Seq<Result<String, std::io::Error>>)
    requires
        forall|i: int|
            0 <= i < lines.len() ==> (#[trigger] lines[i]) is Ok && !mentions(
                lines[i]->Ok_0@,
                name,
            ),
    ensures
        locate(name, lines) == Located::Missing,
    decreases lines.len(),
{
    if lines.len() > 0 {
        let rest = lines.drop_first();
        assert(lines[0] is Ok);
        assert forall|i: int| 0 <= i < rest.len() implies (#[trigger] rest[i]) is Ok && !mentions(
            rest[i]->Ok_0@,
            name,
        ) by {
            assert(rest[i] == lines[i + 1]);
        }
        lemma_absent_is_missing(name, rest);
    }
}

/// Tells whether `c` separates tokens.
pub fn is_whitespace(c: char) -> (b: bool)
    ensures
        b == is_space(c),
{
    let u = c as u32;
    (0x09 <= u && u <= 0x0D) || u == 0x20 || u == 0x85 || u == 0xA0 || u == 0x1680 || (0x2000 <= u
        && u <= 0x200A) || u == 0x2028 || u == 0x2029 || u == 0x202F || u == 0x205F || u == 0x3000
}

/// The characters of `s`, one by one.
pub(crate) fn chars_of(s: &str) -> (v: Vec<char>)
    ensures
        v@ == s@,
{
    let mut v: Vec<char> = Vec::new();
    for c in it: s.chars()
        invariant
            v@ == it.seq().take(it.index() as int),
            it.seq() == s@,
    {
        v.push(c);
    }
    v
}

/// A run that begins with a character of its kind is one longer than the
/// run after that character.
proof fn lemma_run_step(s: Seq<char>, from: int, space: bool)
    requires
        0 <= from < s.len(),
        is_space(s[from]) == space,
    ensures
        run_length(s.skip(from), space) == 1 + run_length(s.skip(from + 1), space),
{
    assert(s.skip(from).drop_first() == s.skip(from + 1));
}

/// Where the run of white space (or of other characters) that begins at
/// `from` ends.
fn run_end(line: &Vec<char>, from: usize, space: bool) -> (to: usize)
    requires
        from <= line.len(),
    ensures
        to == from + run_length(line@.skip(from as int), space),
        from <= to <= line.len(),
{
    let mut to = from;
    while to < line.len() && is_whitespace(line[to]) == space
        invariant
            from <= to <= line.len(),
            from + run_length(line@.skip(from as int), space) == to + run_length(
                line@.skip(to as int),
                space,
            ),
        decreases line.len() - to,
    {
        proof {
            lemma_run_step(line@, to as int, space);
        }
        to += 1;
    }
    to
}

/// Tells whether `name` is what `line` holds from index `at` on.
fn holds_at(line: &Vec<char>, name: &Vec<char>, at: usize) -> (b: bool)
    requires
        at + name.len() <= line.len(),
    ensures
        b == (line@.subrange(at as int, at + name.len()) == name@),
{
    let mut i: usize = 0;
    while i < name.len()
        invariant
            i <= name.len(),
            at + name.len() <= line.len(),
            forall|j: int| 0 <= j < i ==> line@[at + j] == name@[j],
        decreases name.len() - i,
    {
        if line[at + i] != name[i] {
            proof {
                let found = line@.subrange(at as int, at + name.len());
                assert(found[i as int] != name@[i as int]);
            }
            return false;
        }
        i += 1;
    }
    assert(line@.subrange(at as int, at + name.len()) =~= name@);
    true
}

/// Tells whether `line` names the process `name`.
fn names(line: &Vec<char>, name: &Vec<char>) -> (b: bool)
    ensures
        b == mentions(line@, name@),
{
    if name.len() > line.len() {
        return false;
    }
    let last = line.len() - name.len();
    let mut at: usize = 0;
    loop
        invariant
            last == line.len() - name.len(),
            at <= last,
            forall|k: int| 0 <= k < at ==> !stands_at(line@, name@, k),
        decreases last - at,
    {
        let free_before = at == 0 || is_whitespace(line[at - 1]);
        let free_after = at == last || is_whitespace(line[at + name.len()]);
        if free_before && free_after && holds_at(line, name, at) {
            assert(stands_at(line@, name@, at as int));
            return true;
        }
        if at == last {
            return false;
        }
        at += 1;
    }
}

/// The number that the digits of `chars` from `from` on stand for, or why
/// they stand for none that `i32` holds with the sign given.
fn parse_digits(chars: &Vec<char>, from: usize, negative: bool) -> (r: Result<i32, IntParseError>)
    requires
        from <= chars.len(),
    ensures
        r == (if from == chars.len() || !all_digits(chars@.skip(from as int)) {
            Err::<i32, IntParseError>(IntParseError::InvalidDigit)
        } else if negative {
            if decimal(chars@.skip(from as int)) > 0x8000_0000 {
                Err::<i32, IntParseError>(IntParseError::NegOverflow)
            } else {
                Ok::<i32, IntParseError>((-decimal(chars@.skip(from as int))) as i32)
            }
        } else if decimal(chars@.skip(from as int)) > 0x7fff_ffff {
            Err::<i32, IntParseError>(IntParseError::PosOverflow)
        } else {
            Ok::<i32, IntParseError>(decimal(chars@.skip(from as int)) as i32)
        }),
{
    if from == chars.len() {
        return Err(IntParseError::InvalidDigit);
    }
    let ghost digits = chars@.skip(from as int);
    let mut value: u64 = 0;
    let mut too_big = false;
    let mut i = from;
    while i < chars.len()
        invariant
            from <= i <= chars.len(),
            digits == chars@.skip(from as int),
            all_digits(digits.take(i - from)),
            !too_big ==> value == decimal(digits.take(i - from)) && value <= 0x8000_0000,
            too_big ==> decimal(digits.take(i - from)) > 0x8000_0000,
        decreases chars.len() - i,
    {
        let u = chars[i] as u32;
        if u < 0x30 || u > 0x39 {
            assert(!is_digit(digits[i - from]));
            return Err(IntParseError::InvalidDigit);
        }
        proof {
            let longer = digits.take(i - from + 1);
            assert(longer.drop_last() == digits.take(i - from));
            assert(longer.last() == chars@[i as int]);
        }
        if !too_big {
            value = value * 10 + (u - 0x30) as u64;
            if value > 0x8000_0000 {
                too_big = true;
            }
        }
        i += 1;
    }
    assert(digits.take(i - from) == digits);
    if negative {
        if too_big {
            Err(IntParseError::NegOverflow)
        } else {
            Ok((0 - value as i64) as i32)
        }
    } else if too_big || value > 0x7fff_ffff {
        Err(IntParseError::PosOverflow)
    } else {
        Ok(value as i32)
    }
}

/// Reads `chars` as a decimal `i32`.
fn parse_chars(chars: &Vec<char>) -> (r: Result<i32, IntParseError>)
    ensures
        r == parse_i32(chars@),
{
    if chars.len() == 0 {
        return Err(IntParseError::Empty);
    }
    let first = chars[0];
    proof {
        assert(chars@.drop_first() == chars@.skip(1));
        assert(chars@ == chars@.skip(0));
    }
    if first == '-' {
        parse_digits(chars, 1, true)
    } else if first == '+' {
        parse_digits(chars, 1, false)
    } else {
        parse_digits(chars, 0, false)
    }
}

/// Reads `text` as a decimal `i32`.
pub fn parse_pid(text: &str) -> (r: Result<i32, IntParseError>)
    ensures
        r == parse_i32(text@),
{
    let chars = chars_of(text);
    parse_chars(&chars)
}

/// Says what `line` tells of the process whose name is `name`.
pub(crate) fn examine(line: &str, name: &Vec<char>) -> (r: Option<Result<i32, IntParseError>>)
    ensures
        r == line_pid(line@, name@),
{
    let chars = chars_of(line);
    if !names(&chars, name) {
        return None;
    }
    let from = run_end(&chars, 0, true);
    let to = run_end(&chars, from, false);
    assert(line@.skip(0) == line@);
    if to == from {
        return None;
    }
    let mut token = chars;
    token.truncate(to);
    let token = token.split_off(from);
    assert(token@ == first_token(line@));
    Some(parse_chars(&token))
}

} // verus!
