//! Decimal rendering of integers and fixed-point numbers, and joining of
//! texts, with each result stated as a sequence of characters.

use vstd::prelude::*;

verus! {

/// The character of a decimal digit.
pub open spec fn digit_char(d: int) -> char {
    if d == 0 {
        '0'
    } else if d == 1 {
        '1'
    } else if d == 2 {
        '2'
    } else if d == 3 {
        '3'
    } else if d == 4 {
        '4'
    } else if d == 5 {
        '5'
    } else if d == 6 {
        '6'
    } else if d == 7 {
        '7'
    } else if d == 8 {
        '8'
    } else {
        '9'
    }
}

/// The decimal digits of `n`, without leading zeros ("0" for zero).
pub open spec fn nat_text(n: nat) -> Seq<char>
    decreases n,
{
    if n < 10 {
        seq![digit_char(n as int)]
    } else {
        nat_text(n / 10) + seq![digit_char((n % 10) as int)]
    }
}

/// The last `width` decimal digits of `n`, padded with leading zeros.
pub open spec fn padded_text(n: nat, width: nat) -> Seq<char>
    decreases width,
{
    if width == 0 {
        seq![]
    } else {
        padded_text(n / 10, (width - 1) as nat) + seq![digit_char((n % 10) as int)]
    }
}

/// Ten to the power `k`.
pub open spec fn pow10(k: nat) -> nat
    decreases k,
{
    if k == 0 {
        1
    } else {
        10 * pow10((k - 1) as nat)
    }
}

pub open spec fn abs_int(v: int) -> nat {
    if v < 0 {
        (-v) as nat
    } else {
        v as nat
    }
}

/// `abs_int(v)`, in units of `10^(9 - places)`, rounded half up.
pub open spec fn rounded_magnitude(v: int, places: nat) -> nat {
    let unit = pow10((9 - places) as nat);
    ((abs_int(v) + unit / 2) / unit) as nat
}

/// A fixed-point number `v` (in billionths) written with `places` decimals
/// (`places` in `1..=9`), rounded half away from zero, with a leading `-`
/// when `v` is negative.
pub open spec fn fixed_text(v: int, places: nat) -> Seq<char> {
    let r = rounded_magnitude(v, places);
    let sign = if v < 0 {
        seq!['-']
    } else {
        Seq::<char>::empty()
    };
    sign + nat_text(r / pow10(places)) + seq!['.'] + padded_text(r % pow10(places), places)
}

/// `items` joined with `sep` between each two neighbours.
pub open spec fn join_text(items: Seq<Seq<char>>, sep: Seq<char>) -> Seq<char>
    decreases items.len(),
{
    if items.len() == 0 {
        Seq::<char>::empty()
    } else if items.len() == 1 {
        items[0]
    } else {
        join_text(items.drop_last(), sep) + sep + items.last()
    }
}

/// The texts held by a vector of strings.
pub open spec fn texts(v: Seq<String>) -> Seq<Seq<char>> {
    v.map_values(|s: String| s@)
}

fn digit_str(d: u128) -> (r: &'static str)
    requires
        d < 10,
    ensures
        r@ == seq![digit_char(d as int)],
{
    if d == 0 {
        proof { reveal_strlit("0"); }
        "0"
    } else if d == 1 {
        proof { reveal_strlit("1"); }
        "1"
    } else if d == 2 {
        proof { reveal_strlit("2"); }
        "2"
    } else if d == 3 {
        proof { reveal_strlit("3"); }
        "3"
    } else if d == 4 {
        proof { reveal_strlit("4"); }
        "4"
    } else if d == 5 {
        proof { reveal_strlit("5"); }
        "5"
    } else if d == 6 {
        proof { reveal_strlit("6"); }
        "6"
    } else if d == 7 {
        proof { reveal_strlit("7"); }
        "7"
    } else if d == 8 {
        proof { reveal_strlit("8"); }
        "8"
    } else {
        proof { reveal_strlit("9"); }
        "9"
    }
}

/// Appends the decimal digits of `n`.
pub fn push_nat(s: &mut String, n: u128)
    ensures
        final(s)@ == old(s)@ + nat_text(n as nat),
    decreases n,
{
    if n < 10 {
        s.append(digit_str(n));
    } else {
        push_nat(s, n / 10);
        s.append(digit_str(n % 10));
        assert(final(s)@ =~= old(s)@ + nat_text(n as nat));
    }
}

/// Appends the last `width` digits of `n`, padded with zeros.
pub fn push_padded(s: &mut String, n: u128, width: u32)
    ensures
        final(s)@ == old(s)@ + padded_text(n as nat, width as nat),
    decreases width,
{
    if width == 0 {
        assert(final(s)@ =~= old(s)@ + padded_text(n as nat, width as nat));
    } else {
        push_padded(s, n / 10, width - 1);
        s.append(digit_str(n % 10));
        assert(final(s)@ =~= old(s)@ + padded_text(n as nat, width as nat));
    }
}

pub proof fn lemma_pow10_split(a: nat, b: nat)
    ensures
        pow10(a + b) == pow10(a) * pow10(b),
        pow10(a) >= 1,
    decreases a,
{
    if a > 0 {
        lemma_pow10_split((a - 1) as nat, b);
        assert((a + b - 1) as nat == ((a - 1) as nat + b) as nat);
        assert(pow10(a + b) == 10 * pow10((a + b - 1) as nat));
        assert(pow10(a + b) == pow10(a) * pow10(b)) by (nonlinear_arith)
            requires
                pow10(a + b) == 10 * (pow10((a - 1) as nat) * pow10(b)),
                pow10(a) == 10 * pow10((a - 1) as nat),
        ;
    } else {
        assert(a + b == b);
        assert(pow10(a) == 1);
    }
}

pub proof fn lemma_pow10_small()
    ensures
        pow10(1) == 10,
        pow10(18) == 1_000_000_000_000_000_000,
{
    reveal_with_fuel(pow10, 19);
}

pub fn pow10_exec(k: u32) -> (r: u128)
    requires
        k <= 18,
    ensures
        r == pow10(k as nat),
        1 <= r <= 1_000_000_000_000_000_000,
{
    proof {
        lemma_pow10_split(k as nat, (18 - k) as nat);
        lemma_pow10_split((18 - k) as nat, 0);
        lemma_pow10_small();
        assert(pow10(k as nat) <= pow10(18)) by (nonlinear_arith)
            requires
                pow10(18) == pow10(k as nat) * pow10((18 - k) as nat),
                pow10((18 - k) as nat) >= 1,
                pow10(k as nat) >= 1,
        ;
    }
    let mut r: u128 = 1;
    let mut i: u32 = 0;
    while i < k
        invariant
            i <= k <= 18,
            r == pow10(i as nat),
            pow10(k as nat) <= 1_000_000_000_000_000_000,
        decreases k - i,
    {
        proof {
            lemma_pow10_split((i + 1) as nat, (k - i - 1) as nat);
            lemma_pow10_split((k - i - 1) as nat, 0);
            lemma_pow10_split(i as nat, 1);
            assert((i + 1) as nat + (k - i - 1) as nat == k as nat);
            lemma_pow10_small();
            assert(pow10((i + 1) as nat) <= pow10(k as nat)) by (nonlinear_arith)
                requires
                    pow10(k as nat) == pow10((i + 1) as nat) * pow10((k - i - 1) as nat),
                    pow10((k - i - 1) as nat) >= 1,
                    pow10((i + 1) as nat) >= 1,
            {
            }
        }
        r = r * 10;
        i = i + 1;
    }
    r
}

/// Appends the fixed-point number `v` written with `places` decimals.
pub fn push_fixed(s: &mut String, v: i128, places: u32)
    requires
        1 <= places <= 9,
    ensures
        final(s)@ == old(s)@ + fixed_text(v as int, places as nat),
{
    let mag: u128 = if v < 0 {
        ((-(v + 1)) as u128) + 1
    } else {
        v as u128
    };
    assert(mag == abs_int(v as int));
    let unit = pow10_exec(9 - places);
    let r = (mag + unit / 2) / unit;
    let p = pow10_exec(places);
    assert(r == rounded_magnitude(v as int, places as nat));
    if v < 0 {
        proof { reveal_strlit("-"); }
        s.append("-");
    }
    push_nat(s, r / p);
    proof { reveal_strlit("."); }
    s.append(".");
    push_padded(s, r % p, places);
    assert(final(s)@ =~= old(s)@ + fixed_text(v as int, places as nat));
}

/// The strings of `list` joined with `sep`.
pub fn join_strings(list: &Vec<String>, sep: &str) -> (r: String)
    ensures
        r@ == join_text(texts(list@), sep@),
{
    let mut r = String::new();
    let ghost items = texts(list@);
    let mut i: usize = 0;
    while i < list.len()
        invariant
            0 <= i <= list.len(),
            items == texts(list@),
            r@ == join_text(items.take(i as int), sep@),
        decreases list.len() - i,
    {
        if i != 0 {
            r.append(sep);
        }
        r.append(list[i].as_str());
        assert(items.take(i + 1).drop_last() =~= items.take(i as int));
        i = i + 1;
        assert(r@ =~= join_text(items.take(i as int), sep@));
    }
    assert(items.take(list.len() as int) =~= items);
    r
}

/// Whether two texts hold the same characters.
pub fn same_text(a: &str, b: &str) -> (r: bool)
    ensures
        r == (a@ == b@),
{
    let n = a.unicode_len();
    if n != b.unicode_len() {
        return false;
    }
    let mut i: usize = 0;
    while i < n
        invariant
            0 <= i <= n,
            n == a@.len(),
            n == b@.len(),
            a@.take(i as int) == b@.take(i as int),
        decreases n - i,
    {
        if a.get_char(i) != b.get_char(i) {
            assert(a@[i as int] != b@[i as int]);
            return false;
        }
        assert(a@.take(i + 1) =~= a@.take(i as int).push(a@[i as int]));
        assert(b@.take(i + 1) =~= b@.take(i as int).push(b@[i as int]));
        i = i + 1;
    }
    assert(a@ =~= a@.take(n as int));
    assert(b@ =~= b@.take(n as int));
    true
}

} // verus!
