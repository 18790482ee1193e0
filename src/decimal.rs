//! Reading numbers from text: array indices, signed whole numbers and
//! fixed-point decimals (with an optional exponent).

use vstd::prelude::*;
use crate::text::pow10;
use crate::types::SCALE;
use vstd::arithmetic::div_mod::{lemma_basic_div, lemma_div_denominator, lemma_fundamental_div_mod_converse};

verus! {

pub open spec fn is_digit(c: char) -> bool {
    '0' <= c <= '9'
}

pub open spec fn all_digits(s: Seq<char>) -> bool {
    forall|i: int| 0 <= i < s.len() ==> is_digit(#[trigger] s[i])
}

/// The value of a string of decimal digits (zero when empty).
pub open spec fn digits_value(s: Seq<char>) -> nat
    decreases s.len(),
{
    if s.len() == 0 {
        0
    } else {
        10 * digits_value(s.drop_last()) + ((s.last() as int - '0' as int) as nat)
    }
}

/// The digits after an optional leading `+`.
pub open spec fn unsigned_body(s: Seq<char>) -> Seq<char> {
    if s.len() > 0 && s[0] == '+' {
        s.drop_first()
    } else {
        s
    }
}

/// The index that a path segment names: one or more digits, after an
/// optional `+`, whose value fits a `usize`.
pub open spec fn index_value(s: Seq<char>) -> Option<nat> {
    let body = unsigned_body(s);
    if body.len() > 0 && all_digits(body) && digits_value(body) <= usize::MAX {
        Some(digits_value(body))
    } else {
        None
    }
}

proof fn lemma_digits_value_step(s: Seq<char>, i: int)
    requires
        0 <= i < s.len(),
        is_digit(s[i]),
    ensures
        digits_value(s.take(i + 1)) == 10 * digits_value(s.take(i)) + (s[i] as int - '0' as int),
{
    assert(s.take(i + 1).drop_last() =~= s.take(i));
}

proof fn lemma_digits_value_grows(s: Seq<char>, i: int, j: int)
    requires
        0 <= i <= j <= s.len(),
        all_digits(s),
    ensures
        digits_value(s.take(i)) <= digits_value(s.take(j)),
    decreases j - i,
{
    if i < j {
        lemma_digits_value_grows(s, i, j - 1);
        lemma_digits_value_step(s, j - 1);
    }
}

/// Reads an array index from a path segment.
pub fn parse_index(s: &str) -> (r: Option<usize>)
    ensures
        r matches Some(v) ==> index_value(s@) == Some(v as nat),
        r is None ==> index_value(s@) is None,
{
    let n = s.unicode_len();
    let mut start: usize = 0;
    if n > 0 && s.get_char(0) == '+' {
        start = 1;
    }
    let ghost body = unsigned_body(s@);
    assert(body =~= s@.skip(start as int));
    if start == n {
        return None;
    }
    let mut v: usize = 0;
    let mut i: usize = start;
    while i < n
        invariant
            start <= i <= n,
            n == s@.len(),
            body == s@.skip(start as int),
            body == unsigned_body(s@),
            body.len() > 0,
            all_digits(body.take(i - start)),
            v == digits_value(body.take(i - start)),
        decreases n - i,
    {
        let c = s.get_char(i);
        assert(body[i - start] == c);
        if !('0' <= c && c <= '9') {
            assert(!all_digits(body));
            return None;
        }
        proof {
            lemma_digits_value_step(body, (i - start) as int);
        }
        let d = (c as u32 - '0' as u32) as usize;
        let m = v.checked_mul(10);
        match m {
            None => {
                proof {
                    assert(!all_digits(body) || digits_value(body) > usize::MAX) by {
                        if all_digits(body) {
                            lemma_digits_value_grows(body, i - start + 1, body.len() as int);
                            assert(body.take(body.len() as int) =~= body);
                        }
                    }
                }
                    return None;
            },
            Some(m) => {
                match m.checked_add(d) {
                    None => {
                        proof {
                            if all_digits(body) {
                                lemma_digits_value_grows(body, i - start + 1, body.len() as int);
                                assert(body.take(body.len() as int) =~= body);
                            }
                        }
                                    return None;
                    },
                    Some(nv) => {
                        v = nv;
                    },
                }
            },
        }
        assert(body.take(i - start + 1) =~= body.take(i - start).push(c));
        i = i + 1;
    }
    assert(body.take(n - start) =~= body);
    Some(v)
}

/// Position of the first `.` in `s`, or its length when there is none.
pub open spec fn first_dot(s: Seq<char>) -> int
    decreases s.len(),
{
    if s.len() == 0 {
        0
    } else if s[0] == '.' {
        0
    } else {
        1 + first_dot(s.drop_first())
    }
}

/// `s` after an optional leading sign.
pub open spec fn signed_body(s: Seq<char>) -> Seq<char> {
    if s.len() > 0 && (s[0] == '+' || s[0] == '-') {
        s.drop_first()
    } else {
        s
    }
}

pub open spec fn whole_part(body: Seq<char>) -> Seq<char> {
    body.take(first_dot(body))
}

pub open spec fn fraction_part(body: Seq<char>) -> Seq<char> {
    if first_dot(body) < body.len() {
        body.skip(first_dot(body) + 1)
    } else {
        Seq::<char>::empty()
    }
}

pub open spec fn is_exponent_mark(c: char) -> bool {
    c == 'e' || c == 'E'
}

/// Position of the first `e` or `E` in `s`, or its length when there is none.
pub open spec fn first_exp(s: Seq<char>) -> int
    decreases s.len(),
{
    if s.len() == 0 {
        0
    } else if is_exponent_mark(s[0]) {
        0
    } else {
        1 + first_exp(s.drop_first())
    }
}

/// The digits and point before the exponent mark.
pub open spec fn mantissa_part(body: Seq<char>) -> Seq<char> {
    body.take(first_exp(body))
}

/// The exponent after the mark: a signed whole number; zero without a mark.
pub open spec fn exponent_value(body: Seq<char>) -> Option<int> {
    if first_exp(body) < body.len() {
        integer_value(body.skip(first_exp(body) + 1))
    } else {
        Some(0)
    }
}

/// The digits of the mantissa, the point left out.
pub open spec fn mantissa_digits(body: Seq<char>) -> Seq<char> {
    whole_part(mantissa_part(body)) + fraction_part(mantissa_part(body))
}

/// `n * 10^shift`, rounded down.
pub open spec fn times_pow10(n: nat, shift: int) -> int {
    if shift >= 0 {
        (n * pow10(shift as nat)) as int
    } else {
        (n / pow10((-shift) as nat)) as int
    }
}

/// The magnitude of a decimal in billionths, rounded down: the value of its
/// digits times ten to the power `9 + exponent - fraction digits`.
pub open spec fn magnitude(body: Seq<char>, exponent: int) -> int {
    times_pow10(
        digits_value(mantissa_digits(body)),
        9 + exponent - fraction_part(mantissa_part(body)).len(),
    )
}

/// Whether `s` is a decimal: an optional sign, digits with an optional `.`
/// (at least one digit in all), and an optional exponent (`e` or `E`, then
/// a signed whole number).
pub open spec fn decimal_form(s: Seq<char>) -> bool {
    let body = signed_body(s);
    let m = mantissa_part(body);
    &&& all_digits(whole_part(m))
    &&& all_digits(fraction_part(m))
    &&& whole_part(m).len() + fraction_part(m).len() > 0
    &&& exponent_value(body) is Some
}

/// The fixed-point value of the decimal `s` times `10^extra`, rounded toward
/// zero. None when `s` is no decimal or the value does not fit an `i64`.
pub open spec fn scaled_decimal(s: Seq<char>, extra: int) -> Option<int> {
    let body = signed_body(s);
    if decimal_form(s) {
        let e = exponent_value(body)->0 + extra;
        let v = if s.len() > 0 && s[0] == '-' {
            -magnitude(body, e)
        } else {
            magnitude(body, e)
        };
        if i64::MIN <= v <= i64::MAX {
            Some(v)
        } else {
            None
        }
    } else {
        None
    }
}

/// The fixed-point value of the decimal `s`, rounded toward zero.
pub open spec fn decimal_value(s: Seq<char>) -> Option<int> {
    scaled_decimal(s, 0)
}

/// Why a text gives no fixed-point value.
#[derive(Clone, Copy, Debug, PartialEq, Eq, Structural)]
pub enum DecimalError {
    /// The text is no decimal.
    Malformed,
    /// The value does not fit an `i64`.
    OutOfRange,
}

proof fn lemma_first_exp(s: Seq<char>, j: int)
    requires
        0 <= j <= s.len(),
        forall|k: int| 0 <= k < j ==> !is_exponent_mark(s[k]),
        j == s.len() || is_exponent_mark(s[j]),
    ensures
        first_exp(s) == j,
    decreases j,
{
    if j > 0 {
        lemma_first_exp(s.drop_first(), j - 1);
    }
}

proof fn lemma_digits_bound(d: Seq<char>)
    requires
        all_digits(d),
    ensures
        digits_value(d) < pow10(d.len()),
    decreases d.len(),
{
    if d.len() > 0 {
        let p = d.drop_last();
        lemma_digits_bound(p);
        assert(is_digit(d[d.len() - 1]));
        assert(pow10(d.len()) == 10 * pow10(p.len()));
    }
}

proof fn lemma_digits_drop(d: Seq<char>, j: nat)
    requires
        all_digits(d),
        j <= d.len(),
    ensures
        digits_value(d) / pow10(j) == digits_value(d.take(d.len() - j)),
    decreases j,
{
    if j == 0 {
        assert(d.take(d.len() as int) =~= d);
        assert(pow10(0) == 1);
        lemma_fundamental_div_mod_converse(digits_value(d) as int, 1, digits_value(d) as int, 0);
    } else {
        let p = d.drop_last();
        lemma_digits_drop(p, (j - 1) as nat);
        assert(p.take(p.len() - (j - 1)) =~= d.take(d.len() - j));
        assert(is_digit(d[d.len() - 1]));
        let last = (d.last() as int - '0' as int);
        assert(digits_value(d) == 10 * digits_value(p) + last);
        lemma_fundamental_div_mod_converse(digits_value(d) as int, 10, digits_value(p) as int, last);
        crate::text::lemma_pow10_split((j - 1) as nat, 0);
        assert(pow10(j) == 10 * pow10((j - 1) as nat));
        lemma_div_denominator(digits_value(d) as int, 10, pow10((j - 1) as nat) as int);
    }
}

proof fn lemma_first_dot(s: Seq<char>, j: int)
    requires
        0 <= j <= s.len(),
        forall|k: int| 0 <= k < j ==> s[k] != '.',
        j == s.len() || s[j] == '.',
    ensures
        first_dot(s) == j,
    decreases j,
{
    if j > 0 {
        lemma_first_dot(s.drop_first(), j - 1);
    }
}

/// Reads the digits of `s` at positions `from..to`; None when one is no
/// digit or their value exceeds `cap`.
fn read_whole(s: &str, from: usize, to: usize, cap: u128) -> (r: Option<u128>)
    requires
        from <= to <= s@.len(),
        cap <= 10_000_000_000_000_000_000,
    ensures
        r matches Some(w) ==> all_digits(s@.subrange(from as int, to as int)) && w == digits_value(
            s@.subrange(from as int, to as int),
        ) && w <= cap,
        r is None ==> !all_digits(s@.subrange(from as int, to as int)) || digits_value(
            s@.subrange(from as int, to as int),
        ) > cap,
{
    let ghost t = s@.subrange(from as int, to as int);
    let mut w: u128 = 0;
    let mut i: usize = from;
    while i < to
        invariant
            from <= i <= to <= s@.len(),
            t == s@.subrange(from as int, to as int),
            all_digits(t.take(i - from)),
            w == digits_value(t.take(i - from)),
            w <= cap,
            cap <= 10_000_000_000_000_000_000,
        decreases to - i,
    {
        let c = s.get_char(i);
        assert(t[i - from] == c);
        if !('0' <= c && c <= '9') {
            assert(!all_digits(t));
            return None;
        }
        proof {
            lemma_digits_value_step(t, (i - from) as int);
        }
        assert(t.take(i - from + 1) =~= t.take(i - from).push(c));
        w = w * 10 + (c as u32 - '0' as u32) as u128;
        i = i + 1;
        if w > cap {
            proof {
                if all_digits(t) {
                    lemma_digits_value_grows(t, i - from, t.len() as int);
                    assert(t.take(t.len() as int) =~= t);
                }
            }
            return None;
        }
    }
    assert(t.take(to - from) =~= t);
    Some(w)
}

/// The value of the first `t` digits of `d`; None when it exceeds `cap`.
fn read_prefix(d: &Vec<char>, t: usize, cap: u128) -> (r: Option<u128>)
    requires
        t <= d.len(),
        all_digits(d@),
        cap <= 10_000_000_000_000_000_000,
    ensures
        r matches Some(w) ==> w == digits_value(d@.take(t as int)) && w <= cap,
        r is None ==> digits_value(d@.take(t as int)) > cap,
{
    let mut w: u128 = 0;
    let mut i: usize = 0;
    while i < t
        invariant
            i <= t <= d.len(),
            all_digits(d@),
            w == digits_value(d@.take(i as int)),
            w <= cap,
            cap <= 10_000_000_000_000_000_000,
        decreases t - i,
    {
        let c = d[i];
        proof {
            lemma_digits_value_step(d@, i as int);
        }
        w = w * 10 + (c as u32 - '0' as u32) as u128;
        i = i + 1;
        if w > cap {
            proof {
                let pt = d@.take(t as int);
                assert(all_digits(pt));
                assert(pt.take(i as int) =~= d@.take(i as int));
                assert(pt.take(t as int) =~= pt);
                lemma_digits_value_grows(pt, i as int, t as int);
            }
            return None;
        }
    }
    Some(w)
}

/// Appends the digits of `s` at positions `from..to` to `out`; false when
/// one of them is no digit.
fn push_digits(s: &str, from: usize, to: usize, out: &mut Vec<char>) -> (r: bool)
    requires
        from <= to <= s@.len(),
    ensures
        r == all_digits(s@.subrange(from as int, to as int)),
        r ==> final(out)@ == old(out)@ + s@.subrange(from as int, to as int),
{
    let ghost t = s@.subrange(from as int, to as int);
    let ghost start = out@;
    let mut i: usize = from;
    while i < to
        invariant
            from <= i <= to <= s@.len(),
            t == s@.subrange(from as int, to as int),
            all_digits(t.take(i - from)),
            out@ == start + t.take(i - from),
        decreases to - i,
    {
        let c = s.get_char(i);
        assert(t[i - from] == c);
        if !('0' <= c && c <= '9') {
            assert(!all_digits(t));
            return false;
        }
        out.push(c);
        assert(t.take(i - from + 1) =~= t.take(i - from).push(c));
        i = i + 1;
    }
    assert(t.take(to - from) =~= t);
    true
}

/// The whole number written as an optional sign and one or more digits,
/// when it fits an `i64`.
pub open spec fn integer_value(s: Seq<char>) -> Option<int> {
    let body = signed_body(s);
    let v = if s.len() > 0 && s[0] == '-' {
        -digits_value(body)
    } else {
        digits_value(body) as int
    };
    if body.len() > 0 && all_digits(body) && i64::MIN <= v <= i64::MAX {
        Some(v)
    } else {
        None
    }
}

/// Reads a signed whole number.
pub fn parse_integer(s: &str) -> (r: Option<i64>)
    ensures
        r matches Some(v) ==> integer_value(s@) == Some(v as int),
        r is None ==> integer_value(s@) is None,
{
    let n = s.unicode_len();
    let mut start: usize = 0;
    let mut negative = false;
    if n > 0 {
        let c0 = s.get_char(0);
        if c0 == '+' || c0 == '-' {
            start = 1;
            negative = c0 == '-';
        }
    }
    assert(signed_body(s@) =~= s@.subrange(start as int, n as int));
    if start == n {
        return None;
    }
    let m = match read_whole(s, start, n, 9_223_372_036_854_775_808) {
        Some(m) => m,
        None => {
            return None;
        },
    };
    if negative {
        Some((0 - m as i128) as i64)
    } else if m > 9_223_372_036_854_775_807 {
        None
    } else {
        Some(m as i64)
    }
}

/// Why a text is no number, in the words of the float parser.
pub open spec fn float_error(s: Seq<char>) -> Seq<char> {
    if s.len() == 0 {
        "cannot parse float from empty string"@
    } else {
        "invalid float literal"@
    }
}

/// The reason a text is no number.
pub fn float_error_text(s: &str) -> (r: String)
    ensures
        r@ == float_error(s@),
{
    if s.unicode_len() == 0 {
        String::from_str("cannot parse float from empty string")
    } else {
        String::from_str("invalid float literal")
    }
}

/// The value of the digits times `10^shift`, rounded down; None when it
/// exceeds `2^63`.
#[verifier::rlimit(30)]
fn scaled_digits(digits: &Vec<char>, shift: i128) -> (r: Option<u128>)
    requires
        all_digits(digits@),
        -0x1_0000_0000_0000_0000_0000 <= shift <= 0x1_0000_0000_0000_0000_0000,
    ensures
        r matches Some(m) ==> m == times_pow10(digits_value(digits@), shift as int),
        r is None ==> times_pow10(digits_value(digits@), shift as int) > 0x8000_0000_0000_0000,
{
    let len = digits.len();
    assert(digits@.take(len as int) =~= digits@);
    let ghost nv = digits_value(digits@);
    assert(digits@.take(len as int) =~= digits@);
    if shift >= 0 {
        let v = match read_prefix(digits, len, 0x8000_0000_0000_0000) {
            Some(v) => v,
            None => {
                proof {
                    crate::text::lemma_pow10_split(shift as nat, 0);
                    assert(nv * pow10(shift as nat) >= nv) by (nonlinear_arith)
                        requires
                            pow10(shift as nat) >= 1,
                    ;
                }
                return None;
            },
        };
        if v == 0 {
            assert(nv * pow10(shift as nat) == 0) by (nonlinear_arith)
                requires
                    nv == 0,
            ;
            Some(0)
        } else if shift > 18 {
            proof {
                crate::text::lemma_pow10_split(19, (shift - 19) as nat);
                crate::text::lemma_pow10_split((shift - 19) as nat, 0);
                crate::text::lemma_pow10_small();
                assert(pow10(19) == 10 * pow10(18));
                assert((19 + (shift - 19)) as nat == shift as nat);
                assert(pow10(shift as nat) >= pow10(19)) by (nonlinear_arith)
                    requires
                        pow10(shift as nat) == pow10(19) * pow10((shift - 19) as nat),
                        pow10((shift - 19) as nat) >= 1,
                        pow10(19) >= 1,
                ;
                assert(nv * pow10(shift as nat) >= pow10(19)) by (nonlinear_arith)
                    requires
                        nv >= 1,
                        pow10(shift as nat) >= pow10(19),
                ;
            }
            return None;
        } else {
            let p = crate::text::pow10_exec(shift as u32);
            proof {
                assert(v * p <= 0x8000_0000_0000_0000 * 1_000_000_000_000_000_000) by (nonlinear_arith)
                    requires
                        v <= 0x8000_0000_0000_0000,
                        p <= 1_000_000_000_000_000_000,
                ;
            }
            Some(v * p)
        }
    } else {
        let j: i128 = -shift;
        if j >= len as i128 {
            proof {
                lemma_digits_bound(digits@);
                crate::text::lemma_pow10_split(len as nat, (j - len) as nat);
                crate::text::lemma_pow10_split((j - len) as nat, 0);
                assert((len + (j - len)) as nat == j as nat);
                assert(pow10(j as nat) >= pow10(len as nat)) by (nonlinear_arith)
                    requires
                        pow10(j as nat) == pow10(len as nat) * pow10((j - len) as nat),
                        pow10((j - len) as nat) >= 1,
                        pow10(len as nat) >= 1,
                ;
                lemma_basic_div(nv as int, pow10(j as nat) as int);
            }
            Some(0)
        } else {
            proof {
                lemma_digits_drop(digits@, j as nat);
            }
            read_prefix(digits, len - j as usize, 0x8000_0000_0000_0000)
        }
    }
}

/// Reads a decimal and scales it by `10^extra`, in fixed point.
#[verifier::rlimit(60)]
pub fn read_decimal(s: &str, extra: i64) -> (r: Result<i64, DecimalError>)
    ensures
        r matches Ok(v) ==> scaled_decimal(s@, extra as int) == Some(v as int),
        r == Err::<i64, DecimalError>(DecimalError::Malformed) ==> !decimal_form(s@),
        r == Err::<i64, DecimalError>(DecimalError::OutOfRange) ==> decimal_form(s@) && scaled_decimal(
            s@,
            extra as int,
        ) is None,
{
    let n = s.unicode_len();
    let mut start: usize = 0;
    let mut negative = false;
    if n > 0 {
        let c0 = s.get_char(0);
        if c0 == '+' || c0 == '-' {
            start = 1;
            negative = c0 == '-';
        }
    }
    let ghost body = signed_body(s@);
    assert(body =~= s@.skip(start as int));
    assert(negative == (s@.len() > 0 && s@[0] == '-'));
    // the exponent mark
    let mut ep: usize = start;
    while ep < n && !(s.get_char(ep) == 'e' || s.get_char(ep) == 'E')
        invariant
            start <= ep <= n,
            n == s@.len(),
            forall|k: int| start <= k < ep ==> !is_exponent_mark(s@[k]),
        decreases n - ep,
    {
        ep = ep + 1;
    }
    proof {
        assert forall|k: int| 0 <= k < ep - start implies !is_exponent_mark(body[k]) by {
            assert(body[k] == s@[start + k]);
        }
        lemma_first_exp(body, ep - start);
    }
    let ghost mant = mantissa_part(body);
    assert(mant =~= s@.subrange(start as int, ep as int));
    // the point
    let mut d: usize = start;
    while d < ep && s.get_char(d) != '.'
        invariant
            start <= d <= ep <= n,
            n == s@.len(),
            forall|k: int| start <= k < d ==> s@[k] != '.',
        decreases ep - d,
    {
        d = d + 1;
    }
    proof {
        assert forall|k: int| 0 <= k < d - start implies mant[k] != '.' by {
            assert(mant[k] == s@[start + k]);
        }
        lemma_first_dot(mant, d - start);
    }
    let frac_start: usize = if d < ep {
        d + 1
    } else {
        ep
    };
    let ghost whole = whole_part(mant);
    let ghost frac = fraction_part(mant);
    assert(whole =~= s@.subrange(start as int, d as int));
    assert(frac =~= s@.subrange(frac_start as int, ep as int));
    // the digits
    let mut digits: Vec<char> = Vec::new();
    if !push_digits(s, start, d, &mut digits) {
        return Err(DecimalError::Malformed);
    }
    if !push_digits(s, frac_start, ep, &mut digits) {
        return Err(DecimalError::Malformed);
    }
    assert(digits@ =~= mantissa_digits(body));
    if digits.len() == 0 {
        return Err(DecimalError::Malformed);
    }
    // the exponent
    let e: i64 = if ep < n {
        let et = s.substring_char(ep + 1, n);
        assert(et@ =~= body.skip(first_exp(body) + 1));
        match parse_integer(et) {
            Some(e) => e,
            None => {
                return Err(DecimalError::Malformed);
            },
        }
    } else {
        0
    };
    assert(exponent_value(body) == Some(e as int));
    let len = digits.len();
    let shift: i128 = 9 + e as i128 + extra as i128 - (ep - frac_start) as i128;
    assert(shift == 9 + e + extra - frac.len());
    let mag = match scaled_digits(&digits, shift) {
        Some(m) => m,
        None => {
            return Err(DecimalError::OutOfRange);
        },
    };
    assert(mag == magnitude(body, e + extra));
    if negative {
        if mag > 9_223_372_036_854_775_808 {
            return Err(DecimalError::OutOfRange);
        }
        Ok((0 - mag as i128) as i64)
    } else {
        if mag > 9_223_372_036_854_775_807 {
            return Err(DecimalError::OutOfRange);
        }
        Ok(mag as i64)
    }
}

/// Reads a fixed-point decimal.
pub fn parse_decimal(s: &str) -> (r: Option<i64>)
    ensures
        r matches Some(v) ==> decimal_value(s@) == Some(v as int),
        r is None ==> decimal_value(s@) is None,
{
    let r = read_decimal(s, 0);
    match r {
        Ok(v) => Some(v),
        Err(DecimalError::Malformed) => {
            assert(r == Err::<i64, DecimalError>(DecimalError::Malformed));
            assert(!decimal_form(s@));
            None
        },
        Err(DecimalError::OutOfRange) => {
            assert(r == Err::<i64, DecimalError>(DecimalError::OutOfRange));
            None
        },
    }
}

} // verus!
