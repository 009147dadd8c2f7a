//! Decimal literals read as fixed-point numbers.
//!
//! A literal is an optional sign, digits with an optional fractional part
//! (at least one digit in all), and an optional exponent: `45230`, `-3.5`,
//! `.25`, `7.`, `1.5e-7`. Its value is scaled by a power of ten and cut off
//! toward zero, so that no floating-point arithmetic is needed to read it.

use vstd::arithmetic::div_mod::lemma_div_denominator;
use vstd::prelude::*;

verus! {

/// Exponents are read exactly up to this magnitude; beyond it only their
/// sign matters, since the result is then zero or out of range.
pub const EXPONENT_CAP: u128 = 1267650600228229401496703205376u128;

pub open spec fn is_digit(c: char) -> bool {
    48 <= (c as u32) && (c as u32) <= 57
}

pub open spec fn digit_value(c: char) -> int {
    (c as u32) as int - 48
}

pub open spec fn all_digits(s: Seq<char>) -> bool {
    forall|i: int| 0 <= i < s.len() ==> is_digit(#[trigger] s[i])
}

/// The number that a run of digits denotes, most significant digit first.
pub open spec fn digits_value(s: Seq<char>) -> int
    decreases s.len(),
{
    if s.len() == 0 {
        0
    } else {
        digits_value(s.drop_last()) * 10 + digit_value(s.last())
    }
}

pub open spec fn pow10(n: nat) -> int
    decreases n,
{
    if n == 0 {
        1
    } else {
        10 * pow10((n - 1) as nat)
    }
}

/// `m * 10^k`, cut off toward zero where `k` is negative.
pub open spec fn scaled(m: int, k: int) -> int {
    if k >= 0 {
        m * pow10(k as nat)
    } else {
        m / pow10((-k) as nat)
    }
}

/// Length of the longest run of digits that starts at `from`.
pub open spec fn digit_run(s: Seq<char>, from: int) -> int
    decreases s.len() - from,
{
    if 0 <= from < s.len() && is_digit(s[from]) {
        1 + digit_run(s, from + 1)
    } else {
        0
    }
}

/// 1 where a sign stands at `at`, else 0.
pub open spec fn sign_len(s: Seq<char>, at: int) -> int {
    if 0 <= at < s.len() && (s[at] == '+' || s[at] == '-') {
        1
    } else {
        0
    }
}

/// Where the integer digits begin.
pub open spec fn whole_at(s: Seq<char>) -> int {
    sign_len(s, 0)
}

/// Where the integer digits end.
pub open spec fn point_at(s: Seq<char>) -> int {
    whole_at(s) + digit_run(s, whole_at(s))
}

pub open spec fn has_point(s: Seq<char>) -> bool {
    point_at(s) < s.len() && s[point_at(s)] == '.'
}

/// Where the fractional digits begin.
pub open spec fn fraction_at(s: Seq<char>) -> int {
    if has_point(s) {
        point_at(s) + 1
    } else {
        point_at(s)
    }
}

/// Where the fractional digits end and an exponent mark may stand.
pub open spec fn mark_at(s: Seq<char>) -> int {
    if has_point(s) {
        fraction_at(s) + digit_run(s, fraction_at(s))
    } else {
        fraction_at(s)
    }
}

pub open spec fn has_exponent(s: Seq<char>) -> bool {
    mark_at(s) < s.len() && (s[mark_at(s)] == 'e' || s[mark_at(s)] == 'E')
}

/// Where the exponent's digits begin, after the mark and its sign.
pub open spec fn exponent_at(s: Seq<char>) -> int {
    mark_at(s) + 1 + sign_len(s, mark_at(s) + 1)
}

/// Where the literal ends.
pub open spec fn literal_end(s: Seq<char>) -> int {
    if has_exponent(s) {
        exponent_at(s) + digit_run(s, exponent_at(s))
    } else {
        mark_at(s)
    }
}

/// Number of digits written, integer and fractional together.
pub open spec fn digit_count(s: Seq<char>) -> int {
    (point_at(s) - whole_at(s)) + (mark_at(s) - fraction_at(s))
}

/// Whether `s` is a decimal literal from its first character to its last.
pub open spec fn is_literal(s: Seq<char>) -> bool {
    &&& digit_count(s) > 0
    &&& has_exponent(s) ==> digit_run(s, exponent_at(s)) > 0
    &&& literal_end(s) == s.len()
}

/// Integer and fractional digits of a literal, the point left out.
pub open spec fn literal_digits(s: Seq<char>) -> Seq<char> {
    s.subrange(whole_at(s), point_at(s)) + s.subrange(fraction_at(s), mark_at(s))
}

/// The exponent as written; 0 where there is none.
pub open spec fn written_exponent(s: Seq<char>) -> int {
    if !has_exponent(s) {
        0
    } else if s[mark_at(s) + 1] == '-' {
        -digits_value(s.subrange(exponent_at(s), literal_end(s)))
    } else {
        digits_value(s.subrange(exponent_at(s), literal_end(s)))
    }
}

/// The power of ten by which the written digits, read as one integer, are
/// multiplied to give the literal's value times `10^places`.
pub open spec fn literal_shift(s: Seq<char>, places: int) -> int {
    written_exponent(s) - (mark_at(s) - fraction_at(s)) + places
}

pub open spec fn literal_negative(s: Seq<char>) -> bool {
    s.len() > 0 && s[0] == '-'
}

/// Magnitude of the literal's value times `10^places`, cut off toward zero.
pub open spec fn literal_magnitude(s: Seq<char>, places: int) -> int {
    scaled(digits_value(literal_digits(s)), literal_shift(s, places))
}

/// The value of the literal `s` in units of `10^-places`, cut off toward
/// zero; `None` where `s` is no literal or the magnitude is above
/// `i64::MAX`.
pub open spec fn fixed_point(s: Seq<char>, places: int) -> Option<i64> {
    if !is_literal(s) || literal_magnitude(s, places) > i64::MAX {
        None
    } else if literal_negative(s) {
        Some((-literal_magnitude(s, places)) as i64)
    } else {
        Some(literal_magnitude(s, places) as i64)
    }
}

pub proof fn lemma_pow10_positive(n: nat)
    ensures
        pow10(n) >= 1,
    decreases n,
{
    if n > 0 {
        lemma_pow10_positive((n - 1) as nat);
    }
}

pub proof fn lemma_pow10_monotone(a: nat, b: nat)
    requires
        a <= b,
    ensures
        pow10(a) <= pow10(b),
    decreases b - a,
{
    if a < b {
        lemma_pow10_monotone(a, (b - 1) as nat);
        lemma_pow10_positive((b - 1) as nat);
    }
}

/// Ten to the nineteenth is above every `i64`.
pub proof fn lemma_pow10_19()
    ensures
        pow10(19) == 10000000000000000000int,
{
    reveal_with_fuel(pow10, 20);
}

/// Reading one more digit multiplies by ten and adds the digit.
pub proof fn lemma_digits_value_step(s: Seq<char>, i: int)
    requires
        0 <= i < s.len(),
    ensures
        digits_value(s.take(i + 1)) == digits_value(s.take(i)) * 10 + digit_value(s[i]),
{
    assert(s.take(i + 1).drop_last() =~= s.take(i));
    assert(s.take(i + 1).last() == s[i]);
}

/// A run of `n` digits denotes a number from 0 up to, not including, `10^n`.
pub proof fn lemma_digits_value_bounds(s: Seq<char>)
    requires
        all_digits(s),
    ensures
        0 <= digits_value(s) < pow10(s.len()),
    decreases s.len(),
{
    if s.len() > 0 {
        lemma_digits_value_bounds(s.drop_last());
        assert(is_digit(s.last()));
    }
}

/// A longer prefix of a run of digits denotes no smaller a number.
pub proof fn lemma_prefix_monotone(s: Seq<char>, i: int, j: int)
    requires
        all_digits(s),
        0 <= i <= j <= s.len(),
    ensures
        digits_value(s.take(i)) <= digits_value(s.take(j)),
    decreases j - i,
{
    if i < j {
        lemma_prefix_monotone(s, i, j - 1);
        lemma_digits_value_step(s, j - 1);
        lemma_digits_value_bounds(s.take(j - 1));
        assert(is_digit(s[j - 1]));
    }
}

/// Dividing by `10^j` drops the last `j` digits.
pub proof fn lemma_drop_low_digits(s: Seq<char>, j: nat)
    requires
        all_digits(s),
        j <= s.len(),
    ensures
        digits_value(s) / pow10(j) == digits_value(s.take(s.len() - j)),
    decreases j,
{
    if j == 0 {
        assert(s.take(s.len() as int) =~= s);
    } else {
        let n = s.len() as int;
        let before = (j - 1) as nat;
        lemma_drop_low_digits(s, before);
        lemma_pow10_positive(before);
        lemma_digits_value_bounds(s);
        lemma_div_denominator(digits_value(s), pow10(before), 10);
        assert(pow10(j) == pow10(before) * 10);
        lemma_digits_value_step(s, n - j);
        lemma_digits_value_bounds(s.take(n - j));
        assert(is_digit(s[n - j]));
    }
}

/// What scaling does to a run of `n` digits: a negative shift drops digits
/// from the end, all of them where it reaches `-n`; a shift of 19 or more
/// takes every number but zero above `i64::MAX`.
pub proof fn lemma_scaled_digits(s: Seq<char>, k: int)
    requires
        all_digits(s),
    ensures
        scaled(digits_value(s), k) >= 0,
        k < 0 && -k >= s.len() ==> scaled(digits_value(s), k) == 0,
        k < 0 && -k < s.len() ==> scaled(digits_value(s), k) == digits_value(s.take(s.len() + k)),
        k >= 0 ==> scaled(digits_value(s), k) >= digits_value(s),
        k >= 0 && digits_value(s) == 0 ==> scaled(digits_value(s), k) == 0,
        k >= 19 && digits_value(s) >= 1 ==> scaled(digits_value(s), k) > i64::MAX,
{
    let m = digits_value(s);
    lemma_digits_value_bounds(s);
    if k < 0 {
        let j = (-k) as nat;
        lemma_pow10_positive(j);
        if j >= s.len() {
            lemma_pow10_monotone(s.len(), j);
            assert(m / pow10(j) == 0) by (nonlinear_arith)
                requires
                    0 <= m < pow10(j),
            ;
        } else {
            lemma_drop_low_digits(s, j);
            lemma_digits_value_bounds(s.take(s.len() - j));
        }
    } else {
        let p = pow10(k as nat);
        lemma_pow10_positive(k as nat);
        assert(m * p >= m) by (nonlinear_arith)
            requires
                m >= 0,
                p >= 1,
        ;
        if m == 0 {
            assert(m * p == 0) by (nonlinear_arith)
                requires
                    m == 0,
            ;
        }
        if k >= 19 && m >= 1 {
            lemma_pow10_19();
            lemma_pow10_monotone(19, k as nat);
            assert(m * p >= p) by (nonlinear_arith)
                requires
                    m >= 1,
                    p >= 1,
            ;
        }
    }
}

/// A run of `n` digits from `from` on that ends at the end of `s`, or
/// before a character that is no digit, is the longest one.
pub proof fn lemma_digit_run(s: Seq<char>, from: int, n: int)
    requires
        0 <= from,
        0 <= n,
        from + n <= s.len(),
        forall|i: int| from <= i < from + n ==> is_digit(#[trigger] s[i]),
        from + n == s.len() || !is_digit(s[from + n]),
    ensures
        digit_run(s, from) == n,
    decreases n,
{
    if n > 0 {
        lemma_digit_run(s, from + 1, n - 1);
    }
}

/// A run of digits is a literal, and denotes in units of `10^-places` its
/// value times `10^places`.
pub proof fn lemma_integer_literal(digits: Seq<char>, places: nat)
    requires
        all_digits(digits),
        digits.len() > 0,
    ensures
        is_literal(digits),
        !literal_negative(digits),
        literal_magnitude(digits, places as int) == digits_value(digits) * pow10(places),
        digits_value(digits) * pow10(places) <= i64::MAX ==> fixed_point(digits, places as int)
            == Some((digits_value(digits) * pow10(places)) as i64),
        digits_value(digits) * pow10(places) > i64::MAX ==> fixed_point(digits, places as int)
            is None,
{
    let n = digits.len() as int;
    assert(is_digit(digits[0]));
    lemma_digit_run(digits, 0, n);
    assert(whole_at(digits) == 0);
    assert(point_at(digits) == n);
    assert(!has_point(digits));
    assert(mark_at(digits) == n);
    assert(!has_exponent(digits));
    assert(literal_digits(digits) =~= digits);
    assert(literal_shift(digits, places as int) == places);
}

/// Digits, a point and digits, with at least one digit in all, are a
/// literal: its digits are the two runs together, and each digit behind the
/// point lowers the power of ten by one.
pub proof fn lemma_pointed_literal(whole: Seq<char>, fraction: Seq<char>, places: int)
    requires
        all_digits(whole),
        all_digits(fraction),
        whole.len() + fraction.len() > 0,
    ensures
        is_literal(whole + seq!['.'] + fraction),
        !literal_negative(whole + seq!['.'] + fraction),
        literal_digits(whole + seq!['.'] + fraction) == whole + fraction,
        literal_shift(whole + seq!['.'] + fraction, places) == places - fraction.len(),
        literal_magnitude(whole + seq!['.'] + fraction, places) == scaled(
            digits_value(whole + fraction),
            places - fraction.len(),
        ),
{
    let s = whole + seq!['.'] + fraction;
    let w = whole.len() as int;
    let f = fraction.len() as int;
    assert(s.len() == w + 1 + f);
    assert(s[w] == '.');
    assert forall|i: int| 0 <= i < w implies is_digit(#[trigger] s[i]) by {
        assert(s[i] == whole[i]);
    }
    assert forall|i: int| w + 1 <= i < w + 1 + f implies is_digit(#[trigger] s[i]) by {
        assert(s[i] == fraction[i - w - 1]);
    }
    assert(sign_len(s, 0) == 0) by {
        if w > 0 {
            assert(is_digit(s[0]));
        }
    }
    lemma_digit_run(s, 0, w);
    lemma_digit_run(s, w + 1, f);
    assert(point_at(s) == w);
    assert(has_point(s));
    assert(fraction_at(s) == w + 1);
    assert(mark_at(s) == w + 1 + f);
    assert(!has_exponent(s));
    assert(s.subrange(0, w) =~= whole);
    assert(s.subrange(w + 1, w + 1 + f) =~= fraction);
    assert(literal_digits(s) =~= whole + fraction);
    assert(!literal_negative(s)) by {
        if w > 0 {
            assert(is_digit(s[0]));
        }
    }
}

/// The value of a digit, or `None` for any other character.
pub fn digit_of(c: char) -> (d: Option<u8>)
    ensures
        d == (if is_digit(c) {
            Some(digit_value(c) as u8)
        } else {
            None
        }),
{
    let code: u32 = c as u32;
    if 48 <= code && code <= 57 {
        Some((code - 48) as u8)
    } else {
        None
    }
}

fn skip_sign(s: &[char], at: usize) -> (next: usize)
    requires
        at <= s@.len(),
    ensures
        next == at + sign_len(s@, at as int),
        next <= s@.len(),
{
    if at < s.len() && (s[at] == '+' || s[at] == '-') {
        at + 1
    } else {
        at
    }
}

fn skip_digits(s: &[char], from: usize) -> (end: usize)
    requires
        from <= s@.len(),
    ensures
        end == from + digit_run(s@, from as int),
        from <= end <= s@.len(),
        all_digits(s@.subrange(from as int, end as int)),
{
    let mut end: usize = from;
    while end < s.len() && digit_of(s[end]).is_some()
        invariant
            from <= end <= s@.len(),
            digit_run(s@, from as int) == (end - from) + digit_run(s@, end as int),
            forall|i: int| from <= i < end ==> is_digit(#[trigger] s@[i]),
        decreases s@.len() - end,
    {
        end += 1;
    }
    end
}

/// The number that the digits of `s` from `from` to `to` denote, or
/// `EXPONENT_CAP` where it is greater.
fn capped_value(s: &[char], from: usize, to: usize) -> (v: u128)
    requires
        from <= to <= s@.len(),
        all_digits(s@.subrange(from as int, to as int)),
    ensures
        v <= EXPONENT_CAP,
        v < EXPONENT_CAP ==> v == digits_value(s@.subrange(from as int, to as int)),
        v == EXPONENT_CAP ==> digits_value(s@.subrange(from as int, to as int)) >= EXPONENT_CAP,
{
    let ghost run = s@.subrange(from as int, to as int);
    let mut acc: u128 = 0;
    let mut i: usize = from;
    while i < to
        invariant
            from <= i <= to <= s@.len(),
            run == s@.subrange(from as int, to as int),
            all_digits(run),
            acc <= EXPONENT_CAP,
            acc < EXPONENT_CAP ==> acc == digits_value(run.take(i - from)),
            acc == EXPONENT_CAP ==> digits_value(run.take(i - from)) >= EXPONENT_CAP,
        decreases to - i,
    {
        proof {
            lemma_digits_value_step(run, i - from);
            assert(is_digit(run[i - from]));
        }
        let digit: u128 = match digit_of(s[i]) {
            Some(d) => d as u128,
            None => 0,
        };
        let next: u128 = acc * 10 + digit;
        acc = if next > EXPONENT_CAP {
            EXPONENT_CAP
        } else {
            next
        };
        i += 1;
    }
    proof {
        assert(run.take(to - from) =~= run);
    }
    acc
}

/// The number that the first `keep` written digits denote, the point left
/// out; `None` where it is above `i64::MAX`.
fn leading_value(
    s: &[char],
    whole_at: usize,
    point_at: usize,
    fraction_at: usize,
    mark_at: usize,
    keep: usize,
) -> (v: Option<i64>)
    requires
        whole_at <= point_at <= fraction_at <= mark_at <= s@.len(),
        all_digits(s@.subrange(whole_at as int, point_at as int)),
        all_digits(s@.subrange(fraction_at as int, mark_at as int)),
        keep <= (point_at - whole_at) + (mark_at - fraction_at),
    ensures
        ({
            let digits = s@.subrange(whole_at as int, point_at as int) + s@.subrange(
                fraction_at as int,
                mark_at as int,
            );
            let m = digits_value(digits.take(keep as int));
            v == (if m <= i64::MAX {
                Some(m as i64)
            } else {
                None
            })
        }),
        v is Some ==> v->0 >= 0,
{
    let ghost whole = s@.subrange(whole_at as int, point_at as int);
    let ghost fraction = s@.subrange(fraction_at as int, mark_at as int);
    let ghost digits = whole + fraction;
    let width: usize = point_at - whole_at;
    let mut acc: i64 = 0;
    let mut i: usize = 0;
    proof {
        assert forall|j: int| 0 <= j < digits.len() implies is_digit(#[trigger] digits[j]) by {
            if j < whole.len() {
                assert(digits[j] == whole[j]);
            } else {
                assert(digits[j] == fraction[j - whole.len()]);
            }
        }
    }
    while i < keep
        invariant
            0 <= i <= keep <= digits.len(),
            whole_at <= point_at <= fraction_at <= mark_at <= s@.len(),
            width == point_at - whole_at,
            whole == s@.subrange(whole_at as int, point_at as int),
            fraction == s@.subrange(fraction_at as int, mark_at as int),
            digits == whole + fraction,
            all_digits(digits),
            0 <= acc,
            acc == digits_value(digits.take(i as int)),
        decreases keep - i,
    {
        let c: char = if i < width {
            s[whole_at + i]
        } else {
            s[fraction_at + (i - width)]
        };
        proof {
            assert(c == digits[i as int]);
            assert(is_digit(digits[i as int]));
            lemma_digits_value_step(digits, i as int);
        }
        let digit: i64 = match digit_of(c) {
            Some(d) => d as i64,
            None => 0,
        };
        if acc > (i64::MAX - digit) / 10 {
            proof {
                lemma_prefix_monotone(digits, i + 1, keep as int);
            }
            return None;
        }
        acc = acc * 10 + digit;
        i += 1;
    }
    Some(acc)
}

/// `m * 10^k`, or `None` where that is above `i64::MAX`.
fn scale_up(m: i64, k: u128) -> (v: Option<i64>)
    requires
        m >= 0,
    ensures
        v == (if m * pow10(k as nat) <= i64::MAX {
            Some((m * pow10(k as nat)) as i64)
        } else {
            None
        }),
{
    if m == 0 {
        proof {
            let p = pow10(k as nat);
            assert(m * p == 0) by (nonlinear_arith)
                requires
                    m == 0,
            ;
        }
        return Some(0);
    }
    let mut acc: i64 = m;
    let mut i: u128 = 0;
    while i < k
        invariant
            i <= k,
            m >= 1,
            acc >= 1,
            acc == m * pow10(i as nat),
        decreases k - i,
    {
        proof {
            let p = pow10(i as nat);
            let q = pow10((i + 1) as nat);
            let r = pow10(k as nat);
            assert(q == 10 * p);
            assert(m * q == (m * p) * 10) by (nonlinear_arith)
                requires
                    q == 10 * p,
            ;
            lemma_pow10_monotone((i + 1) as nat, k as nat);
            assert(m * q <= m * r) by (nonlinear_arith)
                requires
                    q <= r,
                    m >= 1,
            ;
        }
        if acc > i64::MAX / 10 {
            return None;
        }
        acc = acc * 10;
        i += 1;
    }
    Some(acc)
}

/// Where the parts of a literal stand, and its exponent.
struct Layout {
    whole_at: usize,
    point_at: usize,
    fraction_at: usize,
    mark_at: usize,
    /// The written exponent, held within `EXPONENT_CAP` on either side.
    exponent: i128,
}

impl Layout {
    /// Whether `self` describes the literal `s`.
    spec fn describes(&self, s: Seq<char>) -> bool {
        &&& self.whole_at == whole_at(s)
        &&& self.point_at == point_at(s)
        &&& self.fraction_at == fraction_at(s)
        &&& self.mark_at == mark_at(s)
        &&& self.whole_at <= self.point_at <= self.fraction_at <= self.mark_at <= s.len()
        &&& all_digits(s.subrange(self.whole_at as int, self.point_at as int))
        &&& all_digits(s.subrange(self.fraction_at as int, self.mark_at as int))
        &&& -EXPONENT_CAP <= self.exponent <= EXPONENT_CAP
        &&& -EXPONENT_CAP < self.exponent < EXPONENT_CAP ==> self.exponent == written_exponent(s)
        &&& self.exponent == EXPONENT_CAP ==> written_exponent(s) >= EXPONENT_CAP
        &&& self.exponent == -EXPONENT_CAP ==> written_exponent(s) <= -EXPONENT_CAP
    }
}

/// Finds the parts of the literal `s`; `None` where `s` is no literal.
fn scan_literal(s: &[char]) -> (r: Option<Layout>)
    ensures
        r is Some <==> is_literal(s@),
        r is Some ==> r->0.describes(s@),
{
    let whole_at: usize = skip_sign(s, 0);
    let point_at: usize = skip_digits(s, whole_at);
    let pointed = point_at < s.len() && s[point_at] == '.';
    let fraction_at: usize = if pointed {
        point_at + 1
    } else {
        point_at
    };
    let mark_at: usize = if pointed {
        skip_digits(s, fraction_at)
    } else {
        fraction_at
    };
    proof {
        if !pointed {
            assert(s@.subrange(fraction_at as int, mark_at as int) =~= Seq::<char>::empty());
        }
    }
    if (point_at - whole_at) + (mark_at - fraction_at) == 0 {
        return None;
    }
    let marked = mark_at < s.len() && (s[mark_at] == 'e' || s[mark_at] == 'E');
    if !marked {
        if mark_at != s.len() {
            return None;
        }
        return Some(Layout { whole_at, point_at, fraction_at, mark_at, exponent: 0 });
    }
    let exponent_at: usize = skip_sign(s, mark_at + 1);
    let end: usize = skip_digits(s, exponent_at);
    if end == exponent_at || end != s.len() {
        return None;
    }
    let magnitude: u128 = capped_value(s, exponent_at, end);
    let exponent: i128 = if s[mark_at + 1] == '-' {
        -(magnitude as i128)
    } else {
        magnitude as i128
    };
    Some(Layout { whole_at, point_at, fraction_at, mark_at, exponent })
}

/// The magnitude of the literal that `layout` describes, in units of
/// `10^-places`; `None` where it is above `i64::MAX`.
fn scaled_magnitude(s: &[char], layout: &Layout, places: u8) -> (v: Option<i64>)
    requires
        is_literal(s@),
        layout.describes(s@),
    ensures
        v == (if literal_magnitude(s@, places as int) <= i64::MAX {
            Some(literal_magnitude(s@, places as int) as i64)
        } else {
            None
        }),
        literal_magnitude(s@, places as int) >= 0,
{
    let ghost digits = literal_digits(s@);
    let ghost shift = literal_shift(s@, places as int);
    let fraction_len: usize = layout.mark_at - layout.fraction_at;
    let count: usize = (layout.point_at - layout.whole_at) + fraction_len;
    let near: i128 = layout.exponent - fraction_len as i128 + places as i128;
    proof {
        assert(digits.len() == count);
        assert forall|j: int| 0 <= j < digits.len() implies is_digit(#[trigger] digits[j]) by {
            let whole = s@.subrange(layout.whole_at as int, layout.point_at as int);
            let fraction = s@.subrange(layout.fraction_at as int, layout.mark_at as int);
            if j < whole.len() {
                assert(digits[j] == whole[j]);
            } else {
                assert(digits[j] == fraction[j - whole.len()]);
            }
        }
        lemma_scaled_digits(digits, shift);
        lemma_digits_value_bounds(digits);
        assert(near == shift || (near >= 19 && shift >= 19) || (near < 0 && -near >= count && shift
            < 0 && -shift >= count));
    }
    if near < 0 {
        let dropped: i128 = -near;
        if dropped >= count as i128 {
            Some(0)
        } else {
            leading_value(
                s,
                layout.whole_at,
                layout.point_at,
                layout.fraction_at,
                layout.mark_at,
                count - dropped as usize,
            )
        }
    } else {
        proof {
            assert(digits.take(count as int) =~= digits);
        }
        let whole: Option<i64> = leading_value(
            s,
            layout.whole_at,
            layout.point_at,
            layout.fraction_at,
            layout.mark_at,
            count,
        );
        match whole {
            None => None,
            Some(m) => {
                if m == 0 {
                    Some(0)
                } else if near >= 19 {
                    None
                } else {
                    scale_up(m, near as u128)
                }
            },
        }
    }
}

/// Reads `s` as a decimal literal and gives its value in units of
/// `10^-places`, cut off toward zero: with `places` 3, `"45.5"` is 45500.
pub fn parse_fixed_point(s: &[char], places: u8) -> (r: Option<i64>)
    ensures
        r == fixed_point(s@, places as int),
{
    let layout: Layout = match scan_literal(s) {
        None => {
            return None;
        },
        Some(layout) => layout,
    };
    let negative = s.len() > 0 && s[0] == '-';
    match scaled_magnitude(s, &layout, places) {
        None => None,
        Some(m) => {
            let value: i64 = if negative {
                -m
            } else {
                m
            };
            Some(value)
        },
    }
}

} // verus!
