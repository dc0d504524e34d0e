//! Latency samples and the scanner that reads them from probe output.
//!
//! A probe line carries a timestamp in square brackets and, further along, a
//! field `time=` followed by decimal digits. The scanner selects the leftmost
//! opening bracket that starts such a shape, the longest bracketed group from
//! there, and the last `time=` field on the same line of text.

use vstd::prelude::*;
use vstd::string::*;

verus! {

broadcast use vstd::string::group_string_axioms;

/// One latency reading: the timestamp token as it stood in the line, and the
/// round-trip time in milliseconds.
#[derive(Debug, Clone, PartialEq, Eq)]
pub struct LatencySample {
    pub timestamp: String,
    pub latency_ms: u16,
}

/// The mathematical value of a [`LatencySample`].
pub struct SampleModel {
    pub timestamp: Seq<char>,
    pub latency_ms: u16,
}

impl View for LatencySample {
    type V = SampleModel;

    open spec fn view(&self) -> SampleModel {
        SampleModel { timestamp: self.timestamp@, latency_ms: self.latency_ms }
    }
}

/// Why a line gave no sample.
#[derive(Debug, Clone, Copy, PartialEq, Eq)]
pub enum ParseError {
    /// The line holds no bracketed group followed by a `time=` field.
    NoMatch,
    /// The digits after `time=` exceed the 16-bit range.
    NumericOverflow,
}

/// The largest latency a sample can hold.
pub const MAX_LATENCY_MS: u32 = 65535;

/// A timestamp token is never empty and never spans lines.
pub open spec fn well_formed(m: SampleModel) -> bool {
    &&& m.timestamp.len() > 0
    &&& forall|x: int| 0 <= x < m.timestamp.len() ==> m.timestamp[x] != '\n'
}

/// A decimal digit: one of the ten ASCII characters `0` to `9`. A digit of
/// another script is no digit here.
pub open spec fn is_digit(c: char) -> bool {
    '0' <= c && c <= '9'
}

pub open spec fn digit_value(c: char) -> nat {
    (c as int - '0' as int) as nat
}

/// The number that a run of decimal digits denotes.
pub open spec fn decimal_value(digits: Seq<char>) -> nat
    decreases digits.len(),
{
    if digits.len() == 0 {
        0
    } else {
        decimal_value(digits.drop_last()) * 10 + digit_value(digits.last())
    }
}

/// `time=` and at least one digit stand at position `k`.
pub open spec fn field_at(s: Seq<char>, k: int) -> bool {
    &&& 0 <= k
    &&& k + 5 < s.len()
    &&& s[k] == 't'
    &&& s[k + 1] == 'i'
    &&& s[k + 2] == 'm'
    &&& s[k + 3] == 'e'
    &&& s[k + 4] == '='
    &&& is_digit(s[k + 5])
}

pub open spec fn no_newline(s: Seq<char>, lo: int, hi: int) -> bool {
    forall|m: int| lo <= m < hi ==> s[m] != '\n'
}

/// The shape is present with its opening bracket at `i`, its closing bracket
/// at `j` and its `time=` field at `k`: the group between the brackets is not
/// empty, and no line break stands between the opening bracket and the field.
pub open spec fn is_match(s: Seq<char>, i: int, j: int, k: int) -> bool {
    &&& 0 <= i
    &&& i + 1 < j
    &&& j < k
    &&& s[i] == '['
    &&& s[j] == ']'
    &&& field_at(s, k)
    &&& no_newline(s, i, k)
}

pub open spec fn has_match(s: Seq<char>) -> bool {
    exists|i: int, j: int, k: int| is_match(s, i, j, k)
}

/// Among all occurrences of the shape, the one that is read: leftmost opening
/// bracket, then rightmost closing bracket, then rightmost field.
pub open spec fn is_selected(s: Seq<char>, i: int, j: int, k: int) -> bool {
    &&& is_match(s, i, j, k)
    &&& forall|a: int, b: int, c: int| #[trigger]
        is_match(s, a, b, c) ==> i < a || (i == a && (b < j || (b == j && c <= k)))
}

pub open spec fn selected(s: Seq<char>) -> (int, int, int) {
    choose|t: (int, int, int)| is_selected(s, t.0, t.1, t.2)
}

/// Where the run of digits that starts at `from` ends: at the first
/// character that is no ASCII digit, or at the end of the text.
pub open spec fn digits_end(s: Seq<char>, from: int) -> int
    decreases s.len() - from,
{
    if 0 <= from < s.len() && is_digit(s[from]) {
        digits_end(s, from + 1)
    } else {
        from
    }
}

/// The digits of the field at `k`.
pub open spec fn field_digits(s: Seq<char>, k: int) -> Seq<char> {
    s.subrange(k + 5, digits_end(s, k + 5))
}

/// What a line of probe output denotes.
pub open spec fn parse_spec(s: Seq<char>) -> Result<SampleModel, ParseError> {
    if !has_match(s) {
        Err(ParseError::NoMatch)
    } else {
        let (i, j, k) = selected(s);
        let value = decimal_value(field_digits(s, k));
        if value > MAX_LATENCY_MS {
            Err(ParseError::NumericOverflow)
        } else {
            Ok(SampleModel { timestamp: s.subrange(i + 1, j), latency_ms: value as u16 })
        }
    }
}

/// At most one occurrence is selected.
pub proof fn lemma_selected_unique(s: Seq<char>, i: int, j: int, k: int)
    requires
        is_selected(s, i, j, k),
    ensures
        has_match(s),
        selected(s) == (i, j, k),
{
    assert(is_match(s, i, j, k));
    let t = (i, j, k);
    assert(is_selected(s, t.0, t.1, t.2));
    let u = selected(s);
    assert(is_selected(s, u.0, u.1, u.2));
    assert(is_match(s, u.0, u.1, u.2));
}

/// Some occurrence of the shape opens at `a`.
pub open spec fn starts_at(s: Seq<char>, a: int) -> bool {
    exists|b: int, c: int| is_match(s, a, b, c)
}

/// Some occurrence of the shape opens at `a` and closes at `b`.
pub open spec fn closes_at(s: Seq<char>, a: int, b: int) -> bool {
    exists|c: int| is_match(s, a, b, c)
}

proof fn lemma_leftmost_start(s: Seq<char>, a: int) -> (m: int)
    requires
        starts_at(s, a),
    ensures
        starts_at(s, m),
        forall|x: int| starts_at(s, x) ==> m <= x,
    decreases a,
{
    if exists|x: int| x < a && starts_at(s, x) {
        let x = choose|x: int| x < a && starts_at(s, x);
        let (b, c) = choose|b: int, c: int| is_match(s, x, b, c);
        assert(is_match(s, x, b, c));
        lemma_leftmost_start(s, x)
    } else {
        a
    }
}

proof fn lemma_rightmost_close(s: Seq<char>, a: int, b: int) -> (m: int)
    requires
        closes_at(s, a, b),
    ensures
        closes_at(s, a, m),
        forall|x: int| closes_at(s, a, x) ==> x <= m,
    decreases s.len() - b,
{
    if exists|x: int| b < x && closes_at(s, a, x) {
        let x = choose|x: int| b < x && closes_at(s, a, x);
        let c = choose|c: int| is_match(s, a, x, c);
        assert(is_match(s, a, x, c));
        lemma_rightmost_close(s, a, x)
    } else {
        b
    }
}

proof fn lemma_rightmost_field(s: Seq<char>, a: int, b: int, c: int) -> (m: int)
    requires
        is_match(s, a, b, c),
    ensures
        is_match(s, a, b, m),
        forall|x: int| is_match(s, a, b, x) ==> x <= m,
    decreases s.len() - c,
{
    if exists|x: int| c < x && is_match(s, a, b, x) {
        let x = choose|x: int| c < x && is_match(s, a, b, x);
        lemma_rightmost_field(s, a, b, x)
    } else {
        c
    }
}

/// Where the shape occurs at all, one occurrence is the selected one.
pub proof fn lemma_match_has_selected(s: Seq<char>)
    requires
        has_match(s),
    ensures
        is_selected(s, selected(s).0, selected(s).1, selected(s).2),
{
    let (a0, b0, c0) = choose|a: int, b: int, c: int| is_match(s, a, b, c);
    assert(is_match(s, a0, b0, c0));
    let i = lemma_leftmost_start(s, a0);
    let (b1, c1) = choose|b: int, c: int| is_match(s, i, b, c);
    assert(is_match(s, i, b1, c1));
    let j = lemma_rightmost_close(s, i, b1);
    let c2 = choose|c: int| is_match(s, i, j, c);
    let k = lemma_rightmost_field(s, i, j, c2);
    assert forall|a: int, b: int, c: int| #[trigger] is_match(s, a, b, c) implies i < a || (i == a
        && (b < j || (b == j && c <= k))) by {
        assert(starts_at(s, a));
        if a == i {
            assert(closes_at(s, i, b));
        }
    }
    let t = (i, j, k);
    assert(is_selected(s, t.0, t.1, t.2));
}

/// A line that holds the shape reads as the selected occurrence says: a
/// sample where its digits fit 16 bits, an overflow where they do not, and
/// never `NoMatch`.
pub proof fn law_line_with_shape_is_read(s: Seq<char>)
    requires
        has_match(s),
    ensures
        is_selected(s, selected(s).0, selected(s).1, selected(s).2),
        decimal_value(field_digits(s, selected(s).2)) <= MAX_LATENCY_MS ==> parse_spec(s) is Ok,
        decimal_value(field_digits(s, selected(s).2)) > MAX_LATENCY_MS ==> parse_spec(s) == Err::<
            SampleModel,
            ParseError,
        >(ParseError::NumericOverflow),
{
    lemma_match_has_selected(s);
}

/// Some bracketed group, however placed.
pub open spec fn has_group(s: Seq<char>) -> bool {
    exists|i: int, j: int| 0 <= i && i + 1 < j < s.len() && s[i] == '[' && s[j] == ']'
}

/// Some `time=` field, however placed.
pub open spec fn has_field(s: Seq<char>) -> bool {
    exists|k: int| field_at(s, k)
}

/// An occurrence of the shape is the selected one where its opening bracket
/// is the first of the text, no closing bracket stands between its own and
/// its field, and no field follows its own.
pub proof fn law_sole_occurrence_is_selected(s: Seq<char>, i: int, j: int, k: int)
    requires
        is_match(s, i, j, k),
        forall|a: int| 0 <= a < i ==> s[a] != '[',
        forall|b: int| j < b < k ==> s[b] != ']',
        forall|c: int| k < c ==> !field_at(s, c),
    ensures
        is_selected(s, i, j, k),
{
    assert forall|a: int, b: int, c: int| #[trigger] is_match(s, a, b, c) implies i < a || (i == a
        && (b < j || (b == j && c <= k))) by {
        if a < i {
            assert(s[a] != '[');
        }
        if c > k {
            assert(!field_at(s, c));
        }
        if a == i && b > j {
            assert(s[b] != ']');
        }
    }
}

/// A line that holds a bracketed group followed by a `time=` field whose
/// digits fit 16 bits reads as a sample: the text between the selected
/// brackets, and the number that the digits denote.
pub proof fn law_fitting_line_gives_sample(s: Seq<char>, i: int, j: int, k: int)
    requires
        is_selected(s, i, j, k),
        decimal_value(field_digits(s, k)) <= MAX_LATENCY_MS,
    ensures
        parse_spec(s) == Ok::<SampleModel, ParseError>(
            SampleModel {
                timestamp: s.subrange(i + 1, j),
                latency_ms: decimal_value(field_digits(s, k)) as u16,
            },
        ),
{
    lemma_selected_unique(s, i, j, k);
}

/// A line without a bracketed group, or without a `time=` field, gives no
/// sample: it fails as `NoMatch`.
pub proof fn law_missing_part_gives_no_match(s: Seq<char>)
    requires
        !has_group(s) || !has_field(s),
    ensures
        parse_spec(s) == Err::<SampleModel, ParseError>(ParseError::NoMatch),
{
    assert forall|i: int, j: int, k: int| !is_match(s, i, j, k) by {
        if is_match(s, i, j, k) {
            assert(field_at(s, k));
            assert(0 <= i && i + 1 < j < s.len() && s[i] == '[' && s[j] == ']');
        }
    }
}

/// A line whose selected field denotes more than 65535 fails as
/// `NumericOverflow`.
pub proof fn law_large_value_overflows(s: Seq<char>, i: int, j: int, k: int)
    requires
        is_selected(s, i, j, k),
        decimal_value(field_digits(s, k)) > MAX_LATENCY_MS,
    ensures
        parse_spec(s) == Err::<SampleModel, ParseError>(ParseError::NumericOverflow),
{
    lemma_selected_unique(s, i, j, k);
}

fn to_chars(line: &str) -> (chars: Vec<char>)
    ensures
        chars@ == line@,
{
    let mut chars: Vec<char> = Vec::new();
    for c in it: line.chars()
        invariant
            it.seq() == line@,
            chars@ == line@.take(it.index() as int),
    {
        chars.push(c);
        assert(chars@ =~= line@.take(it.index() + 1));
    }
    assert(line@.take(line@.len() as int) =~= line@);
    chars
}

fn is_digit_char(c: char) -> (b: bool)
    ensures
        b == is_digit(c),
{
    '0' <= c && c <= '9'
}

fn field_starts(chars: &Vec<char>, k: usize) -> (b: bool)
    requires
        k < chars.len(),
    ensures
        b == field_at(chars@, k as int),
{
    chars.len() - k > 5 && chars[k] == 't' && chars[k + 1] == 'i' && chars[k + 2] == 'm'
        && chars[k + 3] == 'e' && chars[k + 4] == '=' && is_digit_char(chars[k + 5])
}

/// Finds the selected occurrence of the shape, if the text holds one.
pub fn find_match(chars: &Vec<char>) -> (r: Option<(usize, usize, usize)>)
    ensures
        match r {
            Some((i, j, k)) => is_selected(chars@, i as int, j as int, k as int),
            None => !has_match(chars@),
        },
{
    let ghost s = chars@;
    let n = chars.len();
    let mut i: usize = 0;
    while i < n
        invariant
            s == chars@,
            n == chars.len(),
            i <= n,
            forall|a: int, b: int, c: int| a < i ==> !#[trigger] is_match(s, a, b, c),
        decreases n - i,
    {
        if chars[i] == '[' {
            let mut m: usize = i + 1;
            let mut last_field: Option<usize> = None;
            while m < n && chars[m] != '\n'
                invariant
                    s == chars@,
                    n == chars.len(),
                    i < m <= n,
                    s[i as int] == '[',
                    no_newline(s, i as int, m as int),
                    last_field matches Some(k) ==> i < k < m && field_at(s, k as int),
                    forall|c: int|
                        i < c < m && #[trigger] field_at(s, c) ==> last_field is Some && c
                            <= last_field.unwrap(),
                decreases n - m,
            {
                if field_starts(chars, m) {
                    last_field = Some(m);
                }
                m += 1;
            }
            proof {
                assert forall|b: int, c: int| #[trigger] is_match(s, i as int, b, c) implies i < c
                    < m by {
                    if c >= m {
                        assert(m < n);
                        assert(s[m as int] == '\n');
                    }
                }
            }
            match last_field {
                Some(k) => {
                    let mut j: usize = k - 1;
                    while j > i + 1 && chars[j] != ']'
                        invariant
                            s == chars@,
                            i <= j < k,
                            k < chars.len(),
                            forall|b: int| j < b < k ==> s[b] != ']',
                        decreases j,
                    {
                        j -= 1;
                    }
                    if j > i + 1 {
                        proof {
                            assert(is_match(s, i as int, j as int, k as int));
                        }
                        return Some((i, j, k));
                    }
                    proof {
                        assert forall|b: int, c: int| !#[trigger] is_match(s, i as int, b, c) by {
                            if is_match(s, i as int, b, c) {
                                assert(c <= k);
                                assert(j < b < k);
                            }
                        }
                    }
                },
                None => {
                    proof {
                        assert forall|b: int, c: int| !#[trigger] is_match(s, i as int, b, c) by {
                            if is_match(s, i as int, b, c) {
                                assert(field_at(s, c));
                            }
                        }
                    }
                },
            }
        }
        i += 1;
    }
    None
}

/// Reads the run of digits that starts at `start`; `None` where the number
/// exceeds [`MAX_LATENCY_MS`].
pub fn read_number(chars: &Vec<char>, start: usize) -> (r: Option<u16>)
    requires
        start <= chars.len(),
    ensures
        ({
            let end = digits_end(chars@, start as int);
            let value = decimal_value(chars@.subrange(start as int, end));
            match r {
                Some(n) => n as nat == value,
                None => value > MAX_LATENCY_MS,
            }
        }),
{
    let ghost s = chars@;
    let n = chars.len();
    let mut m: usize = start;
    let mut total: u32 = 0;
    let mut overflow: bool = false;
    proof {
        assert(s.subrange(start as int, start as int) =~= Seq::<char>::empty());
    }
    while m < n && is_digit_char(chars[m])
        invariant
            s == chars@,
            n == chars.len(),
            start <= m <= n,
            digits_end(s, m as int) == digits_end(s, start as int),
            total <= MAX_LATENCY_MS,
            !overflow ==> total as nat == decimal_value(s.subrange(start as int, m as int)),
            overflow ==> decimal_value(s.subrange(start as int, m as int)) > MAX_LATENCY_MS,
        decreases n - m,
    {
        let digit: u32 = chars[m] as u32 - '0' as u32;
        proof {
            let next = s.subrange(start as int, m as int + 1);
            assert(next.drop_last() =~= s.subrange(start as int, m as int));
            assert(next.last() == s[m as int]);
            assert(digit as nat == digit_value(s[m as int]));
        }
        if !overflow {
            let grown: u32 = total * 10 + digit;
            if grown > MAX_LATENCY_MS {
                overflow = true;
            } else {
                total = grown;
            }
        }
        m += 1;
    }
    if overflow {
        None
    } else {
        Some(total as u16)
    }
}

/// Reads one line of probe output.
///
/// Succeeds exactly where the line holds a bracketed group followed on the
/// same line by a `time=` field whose digits fit 16 bits; the sample then
/// carries the text between the selected brackets and the number the digits
/// denote.
///
/// Only the ASCII digits `0` to `9` count. A `time=` that is followed by
/// anything else is no field, and the run of digits ends before the first
/// other character, a digit of another script included: `time=1` followed
/// by an Arabic-Indic three reads as 1.
pub fn parse(line: &str) -> (r: Result<LatencySample, ParseError>)
    ensures
        match r {
            Ok(sample) => parse_spec(line@) == Ok::<SampleModel, ParseError>(sample@)
                && well_formed(sample@),
            Err(e) => parse_spec(line@) == Err::<SampleModel, ParseError>(e),
        },
{
    let chars = to_chars(line);
    match find_match(&chars) {
        None => Err(ParseError::NoMatch),
        Some((i, j, k)) => {
            proof {
                lemma_selected_unique(line@, i as int, j as int, k as int);
            }
            match read_number(&chars, k + 5) {
                None => Err(ParseError::NumericOverflow),
                Some(ms) => {
                    let timestamp = line.substring_char(i + 1, j).to_owned();
                    Ok(LatencySample { timestamp, latency_ms: ms })
                },
            }
        },
    }
}

} // verus!
