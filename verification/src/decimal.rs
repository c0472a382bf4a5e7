use crate::scan::{is_last_where, last_where, lemma_last_where};
use crate::text::{digit_of, digit_value, is_digit};
use vstd::arithmetic::div_mod::{
    lemma_div_denominator, lemma_div_multiples_vanish, lemma_div_multiples_vanish_quotient,
};
use vstd::prelude::*;

verus! {

/// The largest cap that `read_scaled` takes.
pub const CAP_LIMIT: u32 = 400_000_000;

/// Ten to the power `n`.
pub open spec fn pow10(n: nat) -> nat
    decreases n,
{
    if n == 0 {
        1
    } else {
        10 * pow10((n - 1) as nat)
    }
}

/// Whether every character of `s` is a decimal digit.
pub open spec fn all_digits(s: Seq<char>) -> bool {
    forall|i: int| 0 <= i < s.len() ==> is_digit(#[trigger] s[i])
}

/// The number that the digits `s` write, most significant digit first.
pub open spec fn digits_value(s: Seq<char>) -> nat
    decreases s.len(),
{
    if s.len() == 0 {
        0
    } else {
        digits_value(s.drop_last()) * 10 + digit_value(s.last())
    }
}

/// The place of the decimal point in `t`, if it has one.
pub open spec fn point(t: Seq<char>) -> Option<int> {
    last_where(t, |c: char| c == '.')
}

/// What stands before the decimal point of `t`; all of `t` where it has none.
pub open spec fn whole_digits(t: Seq<char>) -> Seq<char> {
    match point(t) {
        Some(p) => t.take(p),
        None => t,
    }
}

/// What stands after the decimal point of `t`; nothing where it has none.
pub open spec fn fraction_digits(t: Seq<char>) -> Seq<char> {
    match point(t) {
        Some(p) => t.skip(p + 1),
        None => Seq::empty(),
    }
}

/// Whether `t` is a plain decimal number: digits, with at most one decimal
/// point among them or at either end, and at least one digit. No sign, no
/// exponent, no blank.
pub open spec fn is_decimal(t: Seq<char>) -> bool {
    &&& all_digits(whole_digits(t))
    &&& all_digits(fraction_digits(t))
    &&& whole_digits(t).len() + fraction_digits(t).len() > 0
}

/// The number that the decimal `t` writes, in ten-thousandths, rounded down.
pub open spec fn ten_thousandths(t: Seq<char>) -> nat {
    digits_value(whole_digits(t) + fraction_digits(t)) * 10_000 / pow10(
        fraction_digits(t).len(),
    )
}

/// `x`, or `cap` where `x` is above it.
pub open spec fn capped(x: nat, cap: nat) -> nat {
    if x <= cap {
        x
    } else {
        cap
    }
}

/// A power of ten is positive.
pub proof fn lemma_pow10_positive(n: nat)
    ensures
        pow10(n) > 0,
    decreases n,
{
    if n > 0 {
        lemma_pow10_positive((n - 1) as nat);
    }
}

/// Writing one more digit multiplies by ten and adds the digit.
pub proof fn lemma_digits_value_push(s: Seq<char>, c: char)
    ensures
        digits_value(s.push(c)) == digits_value(s) * 10 + digit_value(c),
{
    assert(s.push(c).drop_last() =~= s);
}

/// Dropping digits from the right divides by the matching power of ten.
pub proof fn lemma_digits_value_take(s: Seq<char>, n: int)
    requires
        all_digits(s),
        0 <= n <= s.len(),
    ensures
        digits_value(s.take(n)) == digits_value(s) / pow10((s.len() - n) as nat),
    decreases s.len() - n,
{
    if n == s.len() {
        assert(s.take(n) =~= s);
        assert(digits_value(s) / 1 == digits_value(s));
    } else {
        let r = s.drop_last();
        let k = (s.len() - 1 - n) as nat;
        assert(r.take(n) =~= s.take(n));
        assert(all_digits(r));
        lemma_digits_value_take(r, n);
        lemma_pow10_positive(k);
        lemma_div_denominator(digits_value(s) as int, 10, pow10(k) as int);
    }
}

/// The first four digits after the point, with noughts where they are fewer,
/// give the ten-thousandths of a decimal exactly.
pub proof fn lemma_ten_thousandths(whole: Seq<char>, fraction: Seq<char>)
    requires
        all_digits(whole),
        all_digits(fraction),
    ensures
        fraction.len() <= 4 ==> digits_value(whole + fraction) * pow10(
            (4 - fraction.len()) as nat,
        ) == digits_value(whole + fraction) * 10_000 / pow10(fraction.len()),
        fraction.len() > 4 ==> digits_value(whole + fraction.take(4)) == digits_value(
            whole + fraction,
        ) * 10_000 / pow10(fraction.len()),
{
    let all = whole + fraction;
    let d = digits_value(all);
    let f = fraction.len();
    reveal_with_fuel(pow10, 5);
    lemma_pow10_positive(f);
    if f <= 4 {
        let k = (4 - f) as nat;
        assert(pow10(0) == 1 && pow10(1) == 10 && pow10(2) == 100 && pow10(3) == 1_000 && pow10(4)
            == 10_000);
        assert(pow10(k) * pow10(f) == 10_000) by {
            if f == 0 {
                assert(pow10(k) == 10_000 && pow10(f) == 1);
            } else if f == 1 {
                assert(pow10(k) == 1_000 && pow10(f) == 10);
            } else if f == 2 {
                assert(pow10(k) == 100 && pow10(f) == 100);
            } else if f == 3 {
                assert(pow10(k) == 10 && pow10(f) == 1_000);
            } else {
                assert(pow10(k) == 1 && pow10(f) == 10_000);
            }
        }
        assert(d * 10_000 == pow10(f) * (d * pow10(k))) by (nonlinear_arith)
            requires
                pow10(k) * pow10(f) == 10_000,
        ;
        lemma_div_multiples_vanish((d * pow10(k)) as int, pow10(f) as int);
    } else {
        let k = (f - 4) as nat;
        assert(all_digits(all)) by {
            assert(forall|i: int|
                0 <= i < all.len() ==> all[i] == if i < whole.len() {
                    whole[i]
                } else {
                    fraction[i - whole.len()]
                });
        }
        assert(all.take(whole.len() + 4 as int) =~= whole + fraction.take(4));
        lemma_digits_value_take(all, whole.len() + 4 as int);
        lemma_pow10_positive(k);
        assert(pow10(f) == 10_000 * pow10(k));
        lemma_div_multiples_vanish_quotient(10_000, d as int, pow10(k) as int);
    }
}

/// How a token whose first `w` characters are digits stands to the grammar,
/// by what follows those digits: nothing, a decimal point and digits only,
/// or anything else.
pub proof fn lemma_decimal_shape(t: Seq<char>, w: int)
    requires
        0 <= w <= t.len(),
        all_digits(t.take(w)),
    ensures
        w == t.len() ==> point(t) is None && (is_decimal(t) <==> t.len() > 0),
        w < t.len() && t[w] != '.' && !is_digit(t[w]) ==> !is_decimal(t),
        w < t.len() && t[w] == '.' && all_digits(t.skip(w + 1)) ==> point(t) == Some(w) && (
        is_decimal(t) <==> t.len() > 1),
        w < t.len() && t[w] == '.' && !all_digits(t.skip(w + 1)) ==> !is_decimal(t),
{
    let dot = |c: char| c == '.';
    lemma_last_where(t, dot);
    assert(forall|i: int| 0 <= i < w ==> t.take(w)[i] == t[i]);
    assert(forall|i: int| 0 <= i < w ==> is_digit(t[i]));
    if w < t.len() {
        if let Some(p) = point(t) {
            if p > w {
                assert(t.take(p)[w] == t[w]);
            }
        }
        let rest = t.skip(w + 1);
        if t[w] == '.' && all_digits(rest) {
            assert forall|j: int| w < j < t.len() implies !dot(#[trigger] t[j]) by {
                assert(is_digit(rest[j - (w + 1)]));
            }
        }
    }
}

/// Folds one more digit into a capped count.
fn push_digit(acc: u32, d: u32, cap: u32) -> (r: u32)
    requires
        acc <= cap <= CAP_LIMIT,
        d <= 9,
    ensures
        r == capped((acc * 10 + d) as nat, cap as nat),
{
    let next: u32 = acc * 10 + d;
    if next > cap {
        cap
    } else {
        next
    }
}

/// Reads the characters of `v` from `start` up to `end` as a plain decimal
/// number and gives it in ten-thousandths, rounded down, and `cap` where it
/// is more; nothing where the characters are no such number.
pub(crate) fn read_scaled(v: &Vec<char>, start: usize, end: usize, cap: u32) -> (r: Option<u32>)
    requires
        start <= end <= v.len(),
        cap <= CAP_LIMIT,
    ensures
        r is Some <==> is_decimal(v@.subrange(start as int, end as int)),
        r matches Some(n) ==> n == capped(
            ten_thousandths(v@.subrange(start as int, end as int)),
            cap as nat,
        ),
{
    let ghost t = v@.subrange(start as int, end as int);
    let mut i: usize = start;
    let mut acc: u32 = 0;
    while i < end && digit_of(v[i]).is_some()
        invariant
            start <= i <= end <= v.len(),
            t == v@.subrange(start as int, end as int),
            all_digits(t.take(i - start)),
            acc == capped(digits_value(t.take(i - start)), cap as nat),
            cap <= CAP_LIMIT,
        decreases end - i,
    {
        let d: u32 = digit_of(v[i]).unwrap();
        proof {
            let before = t.take(i - start);
            assert(t.take(i + 1 - start) =~= before.push(v@[i as int]));
            lemma_digits_value_push(before, v@[i as int]);
        }
        acc = push_digit(acc, d, cap);
        i += 1;
    }
    let whole_end: usize = i;
    let ghost w: int = whole_end - start;
    let ghost mut folded = t.take(w);
    let mut taken: usize = 0;
    proof {
        lemma_decimal_shape(t, w);
    }
    if i < end {
        if v[i] != '.' {
            return None;
        }
        i += 1;
        while i < end && digit_of(v[i]).is_some()
            invariant
                start <= whole_end < i <= end <= v.len(),
                w == whole_end - start,
                t == v@.subrange(start as int, end as int),
                all_digits(t.subrange(w + 1, i - start)),
                taken == if i - whole_end - 1 < 4 {
                    i - whole_end - 1
                } else {
                    4
                },
                folded == t.take(w) + t.subrange(w + 1, w + 1 + taken),
                acc == capped(digits_value(folded), cap as nat),
                cap <= CAP_LIMIT,
            decreases end - i,
        {
            let d: u32 = digit_of(v[i]).unwrap();
            proof {
                assert(t.subrange(w + 1, i + 1 - start) =~= t.subrange(w + 1, i - start).push(
                    v@[i as int],
                ));
            }
            if taken < 4 {
                proof {
                    lemma_digits_value_push(folded, v@[i as int]);
                    assert(t.take(w) + t.subrange(w + 1, w + 2 + taken) =~= folded.push(
                        v@[i as int],
                    ));
                    folded = folded.push(v@[i as int]);
                }
                acc = push_digit(acc, d, cap);
                taken += 1;
            }
            i += 1;
        }
        if i < end {
            assert(!is_digit(t.skip(w + 1)[i - start - w - 1]));
            return None;
        }
        if end - start == 1 {
            return None;
        }
    } else if end == start {
        return None;
    }
    let ghost written = digits_value(folded);
    proof {
        let whole = whole_digits(t);
        let fraction = fraction_digits(t);
        assert(folded =~= whole + fraction.take(taken as int));
        lemma_ten_thousandths(whole, fraction);
        assert(pow10(0) == 1);
        assert(written * 1 == written);
    }
    let mut padded: usize = taken;
    while padded < 4
        invariant
            taken <= padded <= 4,
            acc == capped(written * pow10((padded - taken) as nat), cap as nat),
            cap <= CAP_LIMIT,
        decreases 4 - padded,
    {
        proof {
            assert(written * pow10((padded + 1 - taken) as nat) == written * pow10(
                (padded - taken) as nat,
            ) * 10) by (nonlinear_arith)
                requires
                    pow10((padded + 1 - taken) as nat) == 10 * pow10((padded - taken) as nat),
            ;
        }
        acc = push_digit(acc, 0, cap);
        padded += 1;
    }
    Some(acc)
}

/// A plain decimal number is made of digits and decimal points only.
pub proof fn lemma_decimal_chars(t: Seq<char>)
    requires
        is_decimal(t),
    ensures
        forall|i: int| 0 <= i < t.len() ==> is_digit(#[trigger] t[i]) || t[i] == '.',
{
    lemma_last_where(t, |c: char| c == '.');
    assert forall|i: int| 0 <= i < t.len() implies is_digit(#[trigger] t[i]) || t[i] == '.' by {
        match point(t) {
            Some(p) => {
                if i < p {
                    assert(t.take(p)[i] == t[i]);
                } else if i > p {
                    assert(t.skip(p + 1)[i - p - 1] == t[i]);
                }
            },
            None => {},
        }
    }
}

/// Two digits, a decimal point and one digit write a decimal number: the tens
/// count 100 000 ten-thousandths each, the units 10 000 and the tenths 1 000.
pub proof fn lemma_two_digits_and_a_tenth(tens: char, units: char, tenths: char)
    requires
        is_digit(tens),
        is_digit(units),
        is_digit(tenths),
    ensures
        is_decimal(seq![tens, units, '.', tenths]),
        ten_thousandths(seq![tens, units, '.', tenths]) == 100_000 * digit_value(tens) + 10_000
            * digit_value(units) + 1_000 * digit_value(tenths),
{
    let t = seq![tens, units, '.', tenths];
    lemma_decimal_shape(t, 2);
    let all = whole_digits(t) + fraction_digits(t);
    assert(all =~= seq![tens, units, tenths]);
    reveal_with_fuel(digits_value, 4);
    reveal_with_fuel(pow10, 2);
    lemma_div_multiples_vanish((digits_value(all) * 1_000) as int, 10);
}

} // verus!
