use crate::decimal::{
    capped, is_decimal, lemma_decimal_chars, lemma_two_digits_and_a_tenth, read_scaled,
    ten_thousandths,
};
use crate::scan::{is_last_where, last_where, lemma_last_where_is, lemma_last_where_none, none_where};
use crate::text::{chars_of, digit_value, is_digit, is_space, space_char};
use vstd::prelude::*;

verus! {

/// The number of parts that make a finished job: one million.
pub const WHOLE: u32 = 1_000_000;

/// The share of a job that is done, in parts per million, from nothing (0) to
/// all of it (`WHOLE`).
#[derive(Clone, Copy, Debug, PartialEq, Eq, Structural)]
pub struct Progress {
    parts: u32,
}

impl View for Progress {
    type V = nat;

    closed spec fn view(&self) -> nat {
        self.parts as nat
    }
}

impl Progress {
    #[verifier::type_invariant]
    pub(crate) open spec fn in_range(self) -> bool {
        self@ <= WHOLE
    }

    /// Nothing done.
    pub fn zero() -> (p: Progress)
        ensures
            p@ == 0,
    {
        Progress { parts: 0 }
    }

    /// Everything done.
    pub fn complete() -> (p: Progress)
        ensures
            p@ == WHOLE,
    {
        Progress { parts: WHOLE }
    }

    /// The share that `parts` millionths make, a whole at most.
    pub fn from_parts(parts: u32) -> (p: Progress)
        ensures
            p@ == capped(parts as nat, WHOLE as nat),
    {
        if parts > WHOLE {
            Progress { parts: WHOLE }
        } else {
            Progress { parts }
        }
    }

    /// The share in parts per million.
    pub fn parts_per_million(&self) -> (n: u32)
        ensures
            n == self@,
            n <= WHOLE,
    {
        proof {
            use_type_invariant(self);
        }
        self.parts
    }

    /// The share in percent, rounded to the nearest whole number, a half to
    /// the even neighbour.
    pub fn percent(&self) -> (n: u32)
        ensures
            n == rounded_percent(self@),
            n <= 100,
    {
        proof {
            use_type_invariant(self);
        }
        let whole: u32 = self.parts / 10_000;
        let rest: u32 = self.parts % 10_000;
        if rest > 5_000 || (rest == 5_000 && whole % 2 == 1) {
            whole + 1
        } else {
            whole
        }
    }
}

/// `parts` millionths in percent, rounded to the nearest whole number, a half
/// to the even neighbour.
pub open spec fn rounded_percent(parts: nat) -> nat {
    let whole = parts / 10_000;
    let rest = parts % 10_000;
    if rest > 5_000 || (rest == 5_000 && whole % 2 == 1) {
        whole + 1
    } else {
        whole
    }
}

/// The place of the last percent sign of `line`, if it has one.
pub open spec fn last_percent(line: Seq<char>) -> Option<int> {
    last_where(line, |c: char| c == '%')
}

/// The place of the last white space in `s`, if it has any.
pub open spec fn last_space(s: Seq<char>) -> Option<int> {
    last_where(s, |c: char| is_space(c))
}

/// The word that ends at the last percent sign of `line`: what stands between
/// the nearest white space before that sign and the sign. There is none where
/// the line has no percent sign, or no white space before its last one.
pub open spec fn percent_token(line: Seq<char>) -> Option<Seq<char>> {
    match last_percent(line) {
        None => None,
        Some(p) => match last_space(line.take(p)) {
            None => None,
            Some(k) => Some(line.subrange(k + 1, p)),
        },
    }
}

/// The progress that `line` reports, in parts per million: a hundredth of the
/// decimal number that its percent token writes, rounded down to a millionth
/// and no more than a whole. A line without such a token reports nothing.
pub open spec fn line_progress(line: Seq<char>) -> Option<nat> {
    match percent_token(line) {
        Some(t) => if is_decimal(t) {
            Some(capped(ten_thousandths(t), WHOLE as nat))
        } else {
            None
        },
        None => None,
    }
}

/// The place of the last percent sign among the characters `v`.
fn find_last_percent(v: &Vec<char>) -> (r: Option<usize>)
    ensures
        match r {
            Some(i) => last_percent(v@) == Some(i as int) && i < v.len(),
            None => last_percent(v@) is None,
        },
{
    let ghost f = |c: char| c == '%';
    let mut i: usize = v.len();
    while i > 0 && v[i - 1] != '%'
        invariant
            i <= v.len(),
            forall|j: int| i <= j < v.len() ==> v@[j] != '%',
        decreases i,
    {
        i -= 1;
    }
    if i > 0 {
        proof {
            assert(is_last_where(v@, f, i - 1));
            lemma_last_where_is(v@, f, i - 1);
        }
        Some(i - 1)
    } else {
        proof {
            assert(none_where(v@, f));
            lemma_last_where_none(v@, f);
        }
        None
    }
}

/// The place of the last white space among the first `end` characters of `v`.
fn find_last_space(v: &Vec<char>, end: usize) -> (r: Option<usize>)
    requires
        end <= v.len(),
    ensures
        match r {
            Some(k) => last_space(v@.take(end as int)) == Some(k as int) && k < end,
            None => last_space(v@.take(end as int)) is None,
        },
{
    let ghost f = |c: char| is_space(c);
    let ghost s = v@.take(end as int);
    let mut i: usize = end;
    while i > 0 && !space_char(v[i - 1])
        invariant
            i <= end <= v.len(),
            s == v@.take(end as int),
            forall|j: int| i <= j < end ==> !is_space(#[trigger] s[j]),
        decreases i,
    {
        i -= 1;
    }
    if i > 0 {
        proof {
            assert(is_last_where(s, f, i - 1));
            lemma_last_where_is(s, f, i - 1);
        }
        Some(i - 1)
    } else {
        proof {
            assert(none_where(s, f));
            lemma_last_where_none(s, f);
        }
        None
    }
}

/// Reads the progress that one line of the downloader's output reports.
///
/// The line's last percent sign ends a word that starts after the nearest
/// white space before it. Where that word is a plain decimal number, the
/// result is a hundredth of it; a number above one hundred gives a whole.
/// Every other line gives nothing.
pub fn parse_progress(line: &str) -> (r: Option<Progress>)
    ensures
        match r {
            Some(p) => line_progress(line@) == Some(p@),
            None => line_progress(line@) is None,
        },
{
    let v = chars_of(line);
    match find_last_percent(&v) {
        None => None,
        Some(p) => match find_last_space(&v, p) {
            None => None,
            Some(k) => {
                proof {
                    assert(v@.subrange(k + 1, p as int) =~= line@.subrange(k + 1, p as int));
                }
                match read_scaled(&v, k + 1, p, WHOLE) {
                    None => None,
                    Some(n) => Some(Progress::from_parts(n)),
                }
            },
        },
    }
}

/// Whether no character of `s` is a percent sign.
pub open spec fn no_percent(s: Seq<char>) -> bool {
    forall|i: int| 0 <= i < s.len() ==> #[trigger] s[i] != '%'
}

/// Whether no character of `s` is white space.
pub open spec fn no_space(s: Seq<char>) -> bool {
    forall|i: int| 0 <= i < s.len() ==> !is_space(#[trigger] s[i])
}

/// A line without a percent sign reports nothing.
pub proof fn lemma_no_percent_no_progress(line: Seq<char>)
    requires
        no_percent(line),
    ensures
        line_progress(line) is None,
{
    let f = |c: char| c == '%';
    assert(none_where(line, f));
    lemma_last_where_none(line, f);
}

/// A line whose last percent sign has no white space anywhere before it
/// reports nothing.
pub proof fn lemma_no_space_no_progress(word: Seq<char>, after: Seq<char>)
    requires
        no_space(word),
        no_percent(after),
    ensures
        line_progress(word + seq!['%'] + after) is None,
{
    let line = word + seq!['%'] + after;
    let p = word.len() as int;
    let f = |c: char| c == '%';
    let g = |c: char| is_space(c);
    assert(is_last_where(line, f, p));
    lemma_last_where_is(line, f, p);
    assert(line.take(p) =~= word);
    assert(none_where(word, g));
    lemma_last_where_none(word, g);
}

/// Where a line's last percent sign ends a word that stands after white
/// space, that word is the line's percent token.
pub proof fn lemma_percent_token(before: Seq<char>, word: Seq<char>, after: Seq<char>)
    requires
        before.len() > 0,
        is_space(before.last()),
        no_space(word),
        no_percent(after),
    ensures
        percent_token(before + word + seq!['%'] + after) == Some(word),
{
    let line = before + word + seq!['%'] + after;
    let p = (before.len() + word.len()) as int;
    let f = |c: char| c == '%';
    let g = |c: char| is_space(c);
    assert(is_last_where(line, f, p));
    lemma_last_where_is(line, f, p);
    let head = line.take(p);
    assert(head =~= before + word);
    assert(is_last_where(head, g, before.len() - 1));
    lemma_last_where_is(head, g, before.len() - 1);
    assert(line.subrange(before.len() as int, p) =~= word);
}

/// A line in which white space, a plain decimal number and a percent sign
/// follow one another, with no percent sign after them, reports a hundredth
/// of that number: its ten-thousandths as parts per million, a whole at most.
pub proof fn lemma_percentage_is_reported(before: Seq<char>, number: Seq<char>, after: Seq<char>)
    requires
        before.len() > 0,
        is_space(before.last()),
        is_decimal(number),
        no_percent(after),
    ensures
        line_progress(before + number + seq!['%'] + after) == Some(
            capped(ten_thousandths(number), WHOLE as nat),
        ),
{
    lemma_decimal_chars(number);
    assert(no_space(number)) by {
        assert forall|i: int| 0 <= i < number.len() implies !is_space(#[trigger] number[i]) by {
            assert(is_digit(number[i]) || number[i] == '.');
        }
    }
    lemma_percent_token(before, number, after);
}

/// A line that reports a percentage of two digits and a tenth, as in
/// `42.5%`, reports a hundredth of that number: 100 000 millionths for each
/// ten, 10 000 for each unit and 1 000 for each tenth.
pub proof fn lemma_tenths_are_reported(
    before: Seq<char>,
    tens: char,
    units: char,
    tenths: char,
    after: Seq<char>,
)
    requires
        before.len() > 0,
        is_space(before.last()),
        is_digit(tens),
        is_digit(units),
        is_digit(tenths),
        no_percent(after),
    ensures
        line_progress(before + seq![tens, units, '.', tenths] + seq!['%'] + after) == Some(
            100_000 * digit_value(tens) + 10_000 * digit_value(units) + 1_000 * digit_value(
                tenths,
            ),
        ),
{
    lemma_two_digits_and_a_tenth(tens, units, tenths);
    lemma_percentage_is_reported(before, seq![tens, units, '.', tenths], after);
}

/// A line whose last percent sign ends a word that is no plain decimal number
/// reports nothing.
pub proof fn lemma_other_word_no_progress(before: Seq<char>, word: Seq<char>, after: Seq<char>)
    requires
        before.len() > 0,
        is_space(before.last()),
        no_space(word),
        !is_decimal(word),
        no_percent(after),
    ensures
        line_progress(before + word + seq!['%'] + after) is None,
{
    lemma_percent_token(before, word, after);
}

/// Whatever a line reports is between nothing and a whole.
pub proof fn lemma_line_progress_in_range(line: Seq<char>)
    ensures
        line_progress(line) matches Some(parts) ==> parts <= WHOLE,
{
}

} // verus!
