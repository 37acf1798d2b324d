//! The decisions of a probing session: how an operator's line is read, and
//! which filesystem steps and reports one iteration performs.

use crate::format::{
    decimal, digits_value, grouped, is_digit, lemma_decimal, lemma_format_num_round_trip,
    without_commas,
};
use vstd::prelude::*;

verus! {

/// Characters of the Unicode `White_Space` property.
pub open spec fn is_white_space(c: char) -> bool {
    ('\u{9}' <= c && c <= '\u{d}') || c == ' ' || c == '\u{85}' || c == '\u{a0}' || c
        == '\u{1680}' || ('\u{2000}' <= c && c <= '\u{200a}') || c == '\u{2028}' || c
        == '\u{2029}' || c == '\u{202f}' || c == '\u{205f}' || c == '\u{3000}'
}

pub open spec fn trim_start(s: Seq<char>) -> Seq<char>
    decreases s.len(),
{
    if s.len() > 0 && is_white_space(s[0]) {
        trim_start(s.drop_first())
    } else {
        s
    }
}

pub open spec fn trim_end(s: Seq<char>) -> Seq<char>
    decreases s.len(),
{
    if s.len() > 0 && is_white_space(s.last()) {
        trim_end(s.drop_last())
    } else {
        s
    }
}

/// `s` without its leading and trailing white space.
pub open spec fn trimmed(s: Seq<char>) -> Seq<char> {
    trim_end(trim_start(s))
}

fn is_white_space_char(c: char) -> (r: bool)
    ensures
        r == is_white_space(c),
{
    ('\u{9}' <= c && c <= '\u{d}') || c == ' ' || c == '\u{85}' || c == '\u{a0}' || c
        == '\u{1680}' || ('\u{2000}' <= c && c <= '\u{200a}') || c == '\u{2028}' || c
        == '\u{2029}' || c == '\u{202f}' || c == '\u{205f}' || c == '\u{3000}'
}

/// The slice of `s` without its leading and trailing white space.
pub fn trim_line<'a>(s: &'a str) -> (r: &'a str)
    ensures
        r@ == trimmed(s@),
{
    let n = s.unicode_len();
    let mut a: usize = 0;
    assert(s@.subrange(0, n as int) =~= s@);
    while a < n && is_white_space_char(s.get_char(a))
        invariant
            a <= n,
            n == s@.len(),
            trim_start(s@) == trim_start(s@.subrange(a as int, n as int)),
        decreases n - a,
    {
        assert(s@.subrange(a as int, n as int).drop_first() =~= s@.subrange(a + 1, n as int));
        a = a + 1;
    }
    let ghost front = s@.subrange(a as int, n as int);
    assert(trim_start(s@) == front);
    let mut b: usize = n;
    while b > a && is_white_space_char(s.get_char(b - 1))
        invariant
            a <= b <= n,
            n == s@.len(),
            trim_end(front) == trim_end(s@.subrange(a as int, b as int)),
        decreases b,
    {
        assert(s@.subrange(a as int, b as int).drop_last() =~= s@.subrange(a as int, b - 1));
        b = b - 1;
    }
    s.substring_char(a, b)
}

/// The digits of an unsigned numeral: an optional leading `+` is dropped.
pub open spec fn unsigned_digits(s: Seq<char>) -> Seq<char> {
    if s.len() > 0 && s[0] == '+' {
        s.drop_first()
    } else {
        s
    }
}

pub open spec fn all_digits(s: Seq<char>) -> bool {
    forall|i: int| 0 <= i < s.len() ==> is_digit(#[trigger] s[i])
}

/// The value of `s` read as an unsigned 64-bit decimal numeral: an optional
/// `+`, then one or more ASCII digits, denoting at most `u64::MAX`.
pub open spec fn parsed_u64(s: Seq<char>) -> Option<u64> {
    let d = unsigned_digits(s);
    if d.len() > 0 && all_digits(d) && digits_value(d) <= u64::MAX {
        Some(digits_value(d) as u64)
    } else {
        None
    }
}

/// The length that an operator's line asks for: the trimmed line read as a
/// numeral, and zero where it is not one.
pub open spec fn requested_length(line: Seq<char>) -> u64 {
    match parsed_u64(trimmed(line)) {
        Some(v) => v,
        None => 0,
    }
}

proof fn lemma_digits_value_prefix(s: Seq<char>, j: int)
    requires
        0 <= j <= s.len(),
    ensures
        digits_value(s.subrange(0, j)) <= digits_value(s),
    decreases s.len(),
{
    if j < s.len() {
        lemma_digits_value_prefix(s.drop_last(), j);
        assert(s.drop_last().subrange(0, j) =~= s.subrange(0, j));
    } else {
        assert(s.subrange(0, j) =~= s);
    }
}

/// Reads `s` as an unsigned 64-bit decimal numeral.
pub fn parse_decimal(s: &str) -> (r: Option<u64>)
    ensures
        r == parsed_u64(s@),
{
    let n = s.unicode_len();
    let start: usize = if n > 0 && s.get_char(0) == '+' {
        1
    } else {
        0
    };
    let ghost d = unsigned_digits(s@);
    assert(d =~= s@.subrange(start as int, n as int));
    if start == n {
        return None;
    }
    let mut value: u64 = 0;
    let mut i: usize = start;
    assert(d.subrange(0, 0) =~= Seq::<char>::empty());
    while i < n
        invariant
            start <= i <= n,
            n == s@.len(),
            d == s@.subrange(start as int, n as int),
            d == unsigned_digits(s@),
            all_digits(d.subrange(0, i - start)),
            value == digits_value(d.subrange(0, i - start)),
        decreases n - i,
    {
        let c = s.get_char(i);
        let k = i - start;
        assert(d[k as int] == c);
        if !('0' <= c && c <= '9') {
            assert(!is_digit(d[k as int]));
            assert(!all_digits(d));
            return None;
        }
        let dv: u64 = (c as u32 - '0' as u32) as u64;
        assert(d.subrange(0, k + 1).drop_last() =~= d.subrange(0, k as int));
        assert(digits_value(d.subrange(0, k + 1)) == value * 10 + dv);
        if value > (u64::MAX - dv) / 10 {
            assert(value * 10 + dv > u64::MAX) by (nonlinear_arith)
                requires
                    value > (u64::MAX - dv) / 10,
                    dv <= 9,
            ;
            proof {
                lemma_digits_value_prefix(d, k + 1);
                assert(digits_value(d) > u64::MAX);
            }
            return None;
        }
        assert(value * 10 + dv <= u64::MAX) by (nonlinear_arith)
            requires
                value <= (u64::MAX - dv) / 10,
                dv <= 9,
        ;
        value = value * 10 + dv;
        i = i + 1;
        assert(all_digits(d.subrange(0, i - start)));
    }
    assert(d.subrange(0, n - start) =~= d);
    Some(value)
}

/// The length that an operator's line asks for; zero, which ends the
/// session, also where the line is no numeral.
pub fn parse_length(line: &str) -> (r: u64)
    ensures
        r == requested_length(line@),
{
    match parse_decimal(trim_line(line)) {
        Some(v) => v,
        None => 0,
    }
}

/// A rendering of a number, with its commas taken out, reads back as that
/// number.
pub proof fn lemma_grouping_parses_back(n: u64)
    ensures
        parsed_u64(without_commas(grouped(n as nat))) == Some(n),
{
    lemma_format_num_round_trip(n);
    lemma_decimal(n as nat);
    let d = decimal(n as nat);
    assert(is_digit(d[0]));
    assert(unsigned_digits(d) == d);
}

/// The points of an iteration at which the volume is probed and reported.
#[derive(Clone, Copy, Debug, PartialEq, Eq, Structural)]
pub enum Stage {
    BeforeCreation,
    AfterCreation,
    AfterSetLength,
    AfterWriteMiddle,
    AfterDeletion,
}

impl Stage {
    /// The heading under which the report of this stage is printed.
    pub fn label(&self) -> (r: &'static str)
        ensures
            *self == Stage::BeforeCreation ==> r@ == "Before file creation"@,
            *self == Stage::AfterCreation ==> r@ == "After file creation"@,
            *self == Stage::AfterSetLength ==> r@ == "After setting file length"@,
            *self == Stage::AfterWriteMiddle ==> r@ == "After writing to middle"@,
            *self == Stage::AfterDeletion ==> r@ == "After file deletion"@,
    {
        match self {
            Stage::BeforeCreation => "Before file creation",
            Stage::AfterCreation => "After file creation",
            Stage::AfterSetLength => "After setting file length",
            Stage::AfterWriteMiddle => "After writing to middle",
            Stage::AfterDeletion => "After file deletion",
        }
    }
}

/// One step of an iteration, on the single scratch file of the session.
#[derive(Clone, Copy, Debug, PartialEq, Eq, Structural)]
pub enum Step {
    /// Probe the volume and print its report under the stage's heading.
    Report(Stage),
    /// Create the scratch file empty, discarding any earlier contents.
    CreateFile,
    /// Set the scratch file's length, without writing the gap.
    SetLength(u64),
    /// Write `count` zero bytes at `offset`.
    WriteZeros { offset: u64, count: u64 },
    /// Close and delete the scratch file.
    RemoveFile,
}

/// Zero bytes written in the middle of the scratch file.
pub const MIDDLE_WRITE_LEN: u64 = 256;

/// The steps of one iteration for a requested length, in order.
pub open spec fn plan(length: u64) -> Seq<Step> {
    seq![
        Step::Report(Stage::BeforeCreation),
        Step::CreateFile,
        Step::Report(Stage::AfterCreation),
        Step::SetLength(length),
        Step::Report(Stage::AfterSetLength),
        Step::WriteZeros { offset: length / 2, count: MIDDLE_WRITE_LEN },
        Step::Report(Stage::AfterWriteMiddle),
        Step::RemoveFile,
        Step::Report(Stage::AfterDeletion),
    ]
}

/// The steps of one iteration: report, create, report, resize to `length`,
/// report, write zeros at `length / 2`, report, delete, report.
pub fn iteration_plan(length: u64) -> (r: Vec<Step>)
    ensures
        r@ == plan(length),
{
    let mut v: Vec<Step> = Vec::new();
    v.push(Step::Report(Stage::BeforeCreation));
    v.push(Step::CreateFile);
    v.push(Step::Report(Stage::AfterCreation));
    v.push(Step::SetLength(length));
    v.push(Step::Report(Stage::AfterSetLength));
    v.push(Step::WriteZeros { offset: length / 2, count: MIDDLE_WRITE_LEN });
    v.push(Step::Report(Stage::AfterWriteMiddle));
    v.push(Step::RemoveFile);
    v.push(Step::Report(Stage::AfterDeletion));
    assert(v@ =~= plan(length));
    v
}

/// What a session does with one line from its operator.
pub enum Command {
    /// End the session.
    Quit,
    /// Run one iteration with these steps, then wait for the next line.
    Run(Vec<Step>),
}

/// The session's answer to a line: a length of zero, or a line that is no
/// numeral, ends it; any other length runs one iteration with that length.
pub fn next_command(line: &str) -> (r: Command)
    ensures
        requested_length(line@) == 0 ==> r is Quit,
        requested_length(line@) != 0 ==> (r matches Command::Run(steps) && steps@ == plan(
            requested_length(line@),
        )),
{
    let length = parse_length(line);
    if length == 0 {
        Command::Quit
    } else {
        Command::Run(iteration_plan(length))
    }
}

} // verus!
