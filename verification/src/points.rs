//! Fixed-point amounts. The game's quantities (score, per-click and per-tick
//! increases, upgrade levels and costs) are non-negative amounts of points
//! with a resolution of one thousandth of a point, held as a count of
//! thousandths in a `u128`.
use vstd::prelude::*;

verus! {

/// One point is this many stored units (thousandths).
pub const MILLIS_PER_POINT: u128 = 1000;

/// A non-negative amount of points, counted in thousandths of a point.
#[derive(Clone, Copy, Debug, PartialEq, Eq, Structural)]
pub struct Points {
    pub milli: u128,
}

/// `a + b` capped at the largest representable amount.
pub open spec fn sat_add(a: int, b: int) -> int {
    if a + b > u128::MAX {
        u128::MAX as int
    } else {
        a + b
    }
}

impl View for Points {
    type V = int;

    open spec fn view(&self) -> int {
        self.milli as int
    }
}

impl Points {
    /// The amount holding `milli` thousandths of a point.
    pub fn new(milli: u128) -> (r: Points)
        ensures
            r@ == milli as int,
    {
        Points { milli }
    }

    /// Zero points.
    pub fn zero() -> (r: Points)
        ensures
            r@ == 0,
    {
        Points { milli: 0 }
    }

    /// Whole points, e.g. `from_points(3)` is 3.000 points.
    pub fn from_points(p: u128) -> (r: Points)
        requires
            p * MILLIS_PER_POINT <= u128::MAX,
        ensures
            r@ == p * MILLIS_PER_POINT,
    {
        Points { milli: p * MILLIS_PER_POINT }
    }

    /// Addition, capped at the largest representable amount.
    pub fn saturating_add(self, other: Points) -> (r: Points)
        ensures
            r@ == sat_add(self@, other@),
    {
        if self.milli <= u128::MAX - other.milli {
            Points { milli: self.milli + other.milli }
        } else {
            Points { milli: u128::MAX }
        }
    }

    /// Exact subtraction of a smaller or equal amount.
    pub fn sub(self, other: Points) -> (r: Points)
        requires
            other@ <= self@,
        ensures
            r@ == self@ - other@,
    {
        Points { milli: self.milli - other.milli }
    }

    /// `self >= other`.
    pub fn ge(self, other: Points) -> (r: bool)
        ensures
            r == (self@ >= other@),
    {
        self.milli >= other.milli
    }
}

/// The character of one decimal digit.
pub open spec fn digit_char(d: int) -> char {
    if d == 0 {
        '0'
    } else if d == 1 {
        '1'
    } else if d == 2 {
        '2'
    } else if d == 3 {
        '3'
    } else if d == 4 {
        '4'
    } else if d == 5 {
        '5'
    } else if d == 6 {
        '6'
    } else if d == 7 {
        '7'
    } else if d == 8 {
        '8'
    } else {
        '9'
    }
}

/// The decimal digits of a non-negative integer, most significant first,
/// without leading zeroes (a single `'0'` for zero).
pub open spec fn spec_digits(n: int) -> Seq<char>
    decreases n,
    when n >= 0
{
    if n < 10 {
        seq![digit_char(n)]
    } else {
        spec_digits(n / 10).push(digit_char(n % 10))
    }
}

fn digit_str(d: u128) -> (r: &'static str)
    requires
        d < 10,
    ensures
        r@ == seq![digit_char(d as int)],
{
    let r = match d {
        0 => "0",
        1 => "1",
        2 => "2",
        3 => "3",
        4 => "4",
        5 => "5",
        6 => "6",
        7 => "7",
        8 => "8",
        _ => "9",
    };
    proof {
        reveal_strlit("0");
        reveal_strlit("1");
        reveal_strlit("2");
        reveal_strlit("3");
        reveal_strlit("4");
        reveal_strlit("5");
        reveal_strlit("6");
        reveal_strlit("7");
        reveal_strlit("8");
        reveal_strlit("9");
        assert(r@ =~= seq![digit_char(d as int)]);
    }
    r
}

/// Append the decimal digits of `n` to `out`.
fn push_digits(n: u128, out: &mut String)
    ensures
        final(out)@ == old(out)@ + spec_digits(n as int),
    decreases n,
{
    if n < 10 {
        out.append(digit_str(n));
        assert(final(out)@ =~= old(out)@ + spec_digits(n as int));
    } else {
        push_digits(n / 10, out);
        out.append(digit_str(n % 10));
        assert(final(out)@ =~= old(out)@ + spec_digits(n as int));
    }
}

/// An amount rounded to hundredths of a point, ties away from zero.
pub open spec fn round_centi(milli: int) -> int {
    (milli + 5) / 10
}

/// An amount formatted with two decimals: whole part, `'.'`, two digits.
pub open spec fn centi_text(milli: int) -> Seq<char> {
    let centi = round_centi(milli);
    spec_digits(centi / 100) + seq!['.'] + seq![
        digit_char(centi / 10 % 10),
        digit_char(centi % 10),
    ]
}

/// Ten to the `e`.
pub open spec fn pow10(e: nat) -> int
    decreases e,
{
    if e == 0 {
        1
    } else {
        10 * pow10((e - 1) as nat)
    }
}

/// The number of decimal digits of a non-negative integer.
pub open spec fn digits10(n: int) -> nat
    decreases n,
    when n >= 0
{
    if n < 10 {
        1
    } else {
        (1 + digits10(n / 10)) as nat
    }
}

/// An amount with three decimals: whole part, `'.'`, three digits.
pub open spec fn fixed_text(milli: int) -> Seq<char> {
    spec_digits(milli / 1000) + seq!['.'] + seq![
        digit_char(milli / 100 % 10),
        digit_char(milli / 10 % 10),
        digit_char(milli % 10),
    ]
}

/// A mantissa shown with three decimals: `m4` counts its thousandths, so
/// `1235` reads `1.235`.
pub open spec fn mantissa_text(m4: int) -> Seq<char> {
    seq![digit_char(m4 / 1000), '.'] + seq![
        digit_char(m4 / 100 % 10),
        digit_char(m4 / 10 % 10),
        digit_char(m4 % 10),
    ]
}

/// The rounded four-digit mantissa of an amount above the scientific
/// threshold: its leading four digits, plus one when the remainder is at
/// least half a unit of the fourth digit (ties round up).
pub open spec fn sci_mantissa(milli: int) -> int {
    let p = pow10((digits10(milli) - 4) as nat);
    let q = milli / p;
    if 2 * (milli % p) >= p {
        q + 1
    } else {
        q
    }
}

/// The scientific text of an amount: a three-decimal mantissa, `'E'`, and a
/// decimal exponent. Zero reads `0.000E0`; amounts under one hundredth of a
/// point read with exponent `-3`; larger amounts round to four significant
/// digits, a full carry moving to the next exponent.
pub open spec fn sci_text(milli: int) -> Seq<char> {
    if milli == 0 {
        mantissa_text(0) + seq!['E'] + spec_digits(0)
    } else if milli < 10 {
        mantissa_text(milli * 1000) + seq!['E', '-'] + spec_digits(3)
    } else {
        let d = digits10(milli);
        let m4 = sci_mantissa(milli);
        if m4 == 10000 {
            mantissa_text(1000) + seq!['E'] + spec_digits(d - 3)
        } else {
            mantissa_text(m4) + seq!['E'] + spec_digits(d - 4)
        }
    }
}

/// The display text of an amount: fixed with three decimals between one
/// hundredth of a point and ten thousand points, scientific outside.
pub open spec fn amount_text(milli: int) -> Seq<char> {
    if 10 <= milli <= 10_000_000 {
        fixed_text(milli)
    } else {
        sci_text(milli)
    }
}

/// Powers of ten are positive.
pub proof fn lemma_pow10_pos(e: nat)
    ensures
        pow10(e) >= 1,
    decreases e,
{
    if e > 0 {
        lemma_pow10_pos((e - 1) as nat);
    }
}

proof fn lemma_pow10_mono(a: nat, b: nat)
    requires
        a <= b,
    ensures
        pow10(a) <= pow10(b),
    decreases b,
{
    if a < b {
        lemma_pow10_mono(a, (b - 1) as nat);
        lemma_pow10_pos((b - 1) as nat);
    }
}

/// A positive integer lies between the powers of ten its digit count names.
proof fn lemma_digits10_bounds(n: int)
    requires
        n >= 1,
    ensures
        pow10((digits10(n) - 1) as nat) <= n < pow10(digits10(n)),
    decreases n,
{
    reveal_with_fuel(pow10, 2);
    if n >= 10 {
        lemma_digits10_bounds(n / 10);
        let d = digits10(n);
        assert(pow10((d - 1) as nat) == 10 * pow10((d - 2) as nat));
        assert(pow10(d) == 10 * pow10((d - 1) as nat));
    }
}

proof fn lemma_digits10_at_most(n: int, k: nat)
    requires
        0 <= n < pow10(k),
        k >= 1,
    ensures
        digits10(n) <= k,
{
    if n >= 1 {
        lemma_digits10_bounds(n);
        if digits10(n) > k {
            lemma_pow10_mono(k, (digits10(n) - 1) as nat);
        }
    }
}

/// The concrete powers of ten the formatter leans on.
proof fn lemma_pow10_concrete()
    ensures
        pow10(7) == 10_000_000,
        pow10(8) == 100_000_000,
        pow10(35) <= u128::MAX,
        pow10(39) > u128::MAX,
{
    reveal_with_fuel(pow10, 40);
}

/// Every `u128` has at most 39 decimal digits.
proof fn lemma_digits10_u128(n: int)
    requires
        0 <= n <= u128::MAX,
    ensures
        digits10(n) <= 39,
{
    lemma_pow10_concrete();
    lemma_digits10_at_most(n, 39);
}

/// The number of decimal digits of a positive integer.
fn digit_count(m: u128) -> (d: u64)
    requires
        m >= 1,
    ensures
        d as nat == digits10(m as int),
        1 <= d <= 39,
{
    proof {
        lemma_digits10_u128(m as int);
    }
    let mut n = m;
    let mut d: u64 = 1;
    while n >= 10
        invariant
            n >= 1,
            d as int == digits10(m as int) - digits10(n as int) + 1,
            digits10(n as int) >= 1,
            digits10(m as int) <= 39,
            digits10(n as int) <= digits10(m as int),
        decreases n,
    {
        assert(digits10(n as int) == 1 + digits10(n as int / 10));
        n = n / 10;
        d = d + 1;
    }
    d
}

/// Ten to the `e`, exactly; `e` is small enough that the power fits.
fn pow10_exec(e: u64) -> (r: u128)
    requires
        e <= 35,
    ensures
        r as int == pow10(e as nat),
{
    proof {
        lemma_pow10_concrete();
    }
    let mut p: u128 = 1;
    let mut i: u64 = 0;
    while i < e
        invariant
            i <= e <= 35,
            p as int == pow10(i as nat),
        decreases e - i,
    {
        proof {
            lemma_pow10_mono((i + 1) as nat, 35 as nat);
            lemma_pow10_concrete();
            assert(pow10((i + 1) as nat) == 10 * pow10(i as nat));
        }
        p = p * 10;
        i = i + 1;
    }
    p
}

/// The numeric value of a digit character.
pub open spec fn digit_val(c: char) -> int {
    if c == '0' {
        0
    } else if c == '1' {
        1
    } else if c == '2' {
        2
    } else if c == '3' {
        3
    } else if c == '4' {
        4
    } else if c == '5' {
        5
    } else if c == '6' {
        6
    } else if c == '7' {
        7
    } else if c == '8' {
        8
    } else {
        9
    }
}

/// The number a digit string reads as, most significant digit first.
pub open spec fn digits_val(s: Seq<char>) -> int
    decreases s.len(),
{
    if s.len() == 0 {
        0
    } else {
        digits_val(s.drop_last()) * 10 + digit_val(s.last())
    }
}

/// Digit strings read back as the number they were made from.
pub proof fn lemma_digits_val(n: int)
    requires
        n >= 0,
    ensures
        digits_val(spec_digits(n)) == n,
    decreases n,
{
    assert(digits_val(Seq::<char>::empty()) == 0);
    if n < 10 {
        assert(spec_digits(n).drop_last() =~= Seq::<char>::empty());
        assert(spec_digits(n).last() == digit_char(n));
        assert(digit_val(digit_char(n)) == n);
    } else {
        lemma_digits_val(n / 10);
        assert(spec_digits(n).drop_last() =~= spec_digits(n / 10));
        assert(spec_digits(n).last() == digit_char(n % 10));
        assert(digit_val(digit_char(n % 10)) == n % 10);
    }
}

/// The amount, in thousandths, that the characters of `fixed_text(milli)`
/// read back as: the whole part times a thousand plus the three decimals.
pub open spec fn fixed_value(milli: int) -> int {
    digits_val(spec_digits(milli / 1000)) * 1000 + digit_val(digit_char(milli / 100 % 10)) * 100
        + digit_val(digit_char(milli / 10 % 10)) * 10 + digit_val(digit_char(milli % 10))
}

/// The thousandths of a mantissa read back from its four shown digits.
pub open spec fn mantissa_value(m4: int) -> int {
    digit_val(digit_char(m4 / 1000)) * 1000 + digit_val(digit_char(m4 / 100 % 10)) * 100
        + digit_val(digit_char(m4 / 10 % 10)) * 10 + digit_val(digit_char(m4 % 10))
}

/// The amount, in thousandths, that `sci_text(milli)` reads back as: the
/// mantissa times ten to the shown exponent.
pub open spec fn sci_value(milli: int) -> int {
    if milli == 0 {
        0
    } else if milli < 10 {
        mantissa_value(milli * 1000) / 1000
    } else {
        let d = digits10(milli);
        let m4 = sci_mantissa(milli);
        if m4 == 10000 {
            mantissa_value(1000) * pow10((d - 3) as nat)
        } else {
            mantissa_value(m4) * pow10((d - 4) as nat)
        }
    }
}

/// A four-digit group reads back as itself.
proof fn lemma_mantissa_value(m4: int)
    requires
        0 <= m4 <= 10000,
    ensures
        m4 <= 9999 ==> mantissa_value(m4) == m4,
        m4 == 10000 ==> mantissa_value(1000) == 1000,
{
    if m4 <= 9999 {
        assert(digit_val(digit_char(m4 / 1000)) == m4 / 1000);
        assert(digit_val(digit_char(m4 / 100 % 10)) == m4 / 100 % 10);
        assert(digit_val(digit_char(m4 / 10 % 10)) == m4 / 10 % 10);
        assert(digit_val(digit_char(m4 % 10)) == m4 % 10);
        assert((m4 / 1000) * 1000 + (m4 / 100 % 10) * 100 + (m4 / 10 % 10) * 10 + m4 % 10 == m4);
    } else {
        assert(digit_val(digit_char(1000int / 1000)) == 1);
        assert(mantissa_value(1000) == 1000);
    }
}

/// A fixed text reads back exactly.
proof fn lemma_fixed_value(milli: int)
    requires
        milli >= 0,
    ensures
        fixed_value(milli) == milli,
{
    lemma_digits_val(milli / 1000);
    assert(digit_val(digit_char(milli / 100 % 10)) == milli / 100 % 10);
    assert(digit_val(digit_char(milli / 10 % 10)) == milli / 10 % 10);
    assert(digit_val(digit_char(milli % 10)) == milli % 10);
    assert((milli / 1000) * 1000 + (milli / 100 % 10) * 100 + (milli / 10 % 10) * 10 + milli % 10
        == milli);
}

proof fn lemma_sci_round_trip_large(milli: int)
    requires
        10_000_000 < milli <= u128::MAX,
    ensures
        2000 * (sci_value(milli) - milli) <= milli,
        2000 * (milli - sci_value(milli)) <= milli,
{
    let d = digits10(milli);
    lemma_digits10_u128(milli);
    lemma_digits10_bounds(milli);
    lemma_pow10_concrete();
    if (d as int) < 8 {
        lemma_pow10_mono(d as nat, 7);
    }
    let p = pow10((d - 4) as nat);
    lemma_pow10_pos((d - 4) as nat);
    let q = milli / p;
    let rem = milli % p;
    vstd::arithmetic::div_mod::lemma_fundamental_div_mod(milli, p);
    assert(pow10((d - 1) as nat) == 1000 * p) by {
        assert(pow10((d - 1) as nat) == 10 * pow10((d - 2) as nat));
        assert(pow10((d - 2) as nat) == 10 * pow10((d - 3) as nat));
        assert(pow10((d - 3) as nat) == 10 * pow10((d - 4) as nat));
    }
    assert(pow10(d as nat) == 10000 * p) by {
        assert(pow10(d as nat) == 10 * pow10((d - 1) as nat));
    }
    assert(1000 <= q < 10000) by (nonlinear_arith)
        requires
            p > 0,
            milli == q * p + rem,
            0 <= rem < p,
            1000 * p <= milli,
            milli < 10000 * p,
    ;
    let m4 = sci_mantissa(milli);
    lemma_mantissa_value(m4);
    // The shown mantissa reads back as itself, so the denoted amount is the
    // rounded mantissa times the power the exponent names.
    if m4 == 10000 {
        assert(sci_value(milli) == 1000 * pow10((d - 3) as nat));
        assert(pow10((d - 3) as nat) == 10 * p);
        assert(sci_value(milli) == 10000 * p) by (nonlinear_arith)
            requires
                sci_value(milli) == 1000 * (10 * p),
        ;
        assert(sci_value(milli) == (q + 1) * p) by (nonlinear_arith)
            requires
                sci_value(milli) == 10000 * p,
                q == 9999,
        ;
    } else {
        assert(sci_value(milli) == m4 * p);
    }
    // Rounding moves the value by at most half a unit of the last digit.
    if 2 * rem >= p {
        assert(m4 == q + 1);
        assert(sci_value(milli) == q * p + p) by (nonlinear_arith)
            requires
                sci_value(milli) == (q + 1) * p,
        ;
        assert(sci_value(milli) - milli == p - rem);
        assert(2 * (p - rem) <= p);
    } else {
        assert(m4 == q);
        assert(sci_value(milli) == q * p);
        assert(milli - sci_value(milli) == rem);
        assert(2 * rem < p);
    }
    assert(1000 * p <= milli);
}

/// The formatting round trip: every amount's display text is one of the two
/// shapes, the fixed text reads back exactly, the scientific text of small
/// amounts reads back exactly, and the scientific text of large amounts
/// reads back within one part in two thousand of the amount.
pub proof fn lemma_format_round_trip(milli: int)
    requires
        0 <= milli <= u128::MAX,
    ensures
        10 <= milli <= 10_000_000 ==> amount_text(milli) == fixed_text(milli) && fixed_value(milli)
            == milli,
        !(10 <= milli <= 10_000_000) ==> amount_text(milli) == sci_text(milli),
        milli < 10 ==> sci_value(milli) == milli,
        milli > 10_000_000 ==> 2000 * (sci_value(milli) - milli) <= milli && 2000 * (milli
            - sci_value(milli)) <= milli,
{
    if 10 <= milli <= 10_000_000 {
        lemma_fixed_value(milli);
    } else if milli < 10 {
        if milli > 0 {
            lemma_mantissa_value(milli * 1000);
            assert(milli * 1000 / 1000 == milli);
        }
    } else {
        lemma_sci_round_trip_large(milli);
    }
}

/// Format an amount as the interface shows scores and increases: fixed with
/// three decimals between one hundredth of a point and ten thousand points,
/// scientific with a three-decimal mantissa outside (ties round up).
pub fn format_amount(p: Points) -> (r: String)
    ensures
        r@ == amount_text(p@),
{
    let m = p.milli;
    if 10 <= m && m <= 10_000_000 {
        let mut out = String::new();
        push_digits(m / 1000, &mut out);
        out.append(".");
        out.append(digit_str(m / 100 % 10));
        out.append(digit_str(m / 10 % 10));
        out.append(digit_str(m % 10));
        proof {
            reveal_strlit(".");
            assert(out@ =~= amount_text(p@));
        }
        out
    } else if m == 0 {
        let out = String::from_str("0.000E0");
        proof {
            reveal_strlit("0.000E0");
            assert(out@ =~= amount_text(p@));
        }
        out
    } else if m < 10 {
        let mut out = String::new();
        out.append(digit_str(m));
        out.append(".000E-3");
        proof {
            reveal_strlit(".000E-3");
            assert(m * 1000 / 1000 == m as int);
            assert(m * 1000 / 100 % 10 == 0 && m * 1000 / 10 % 10 == 0 && m * 1000 % 10 == 0);
            assert(out@ =~= amount_text(p@));
        }
        out
    } else {
        let d = digit_count(m);
        proof {
            lemma_digits10_bounds(m as int);
            if (d as nat) < 8 {
                lemma_pow10_mono(d as nat, 7);
                lemma_pow10_concrete();
            }
            lemma_pow10_pos((d - 4) as nat);
        }
        let pw = pow10_exec(d - 4);
        let q = m / pw;
        let rem = m % pw;
        proof {
            vstd::arithmetic::div_mod::lemma_fundamental_div_mod(m as int, pw as int);
            assert(pow10((d - 1) as nat) == 1000 * pow10((d - 4) as nat)) by {
                assert(pow10((d - 1) as nat) == 10 * pow10((d - 2) as nat));
                assert(pow10((d - 2) as nat) == 10 * pow10((d - 3) as nat));
                assert(pow10((d - 3) as nat) == 10 * pow10((d - 4) as nat));
            }
            assert(pow10(d as nat) == 10000 * pow10((d - 4) as nat)) by {
                assert(pow10(d as nat) == 10 * pow10((d - 1) as nat));
            }
            assert(1000 <= q < 10000) by (nonlinear_arith)
                requires
                    pw > 0,
                    m == q * pw + rem,
                    0 <= rem < pw,
                    1000 * pw <= m,
                    m < 10000 * pw,
            ;
        }
        let m4: u128 = if 2 * rem >= pw {
            q + 1
        } else {
            q
        };
        let mut out = String::new();
        let (mantissa, exp) = if m4 == 10000 {
            (1000u128, d - 3)
        } else {
            (m4, d - 4)
        };
        out.append(digit_str(mantissa / 1000));
        out.append(".");
        out.append(digit_str(mantissa / 100 % 10));
        out.append(digit_str(mantissa / 10 % 10));
        out.append(digit_str(mantissa % 10));
        out.append("E");
        push_digits(exp as u128, &mut out);
        proof {
            reveal_strlit(".");
            reveal_strlit("E");
            assert(out@ =~= amount_text(p@));
        }
        out
    }
}

/// Format an amount with two decimals, as upgrade levels and costs are shown.
pub fn format_centi(p: Points) -> (r: String)
    ensures
        r@ == centi_text(p@),
{
    let milli = p.milli;
    let centi: u128 = milli / 10 + if milli % 10 >= 5 {
        1
    } else {
        0
    };
    assert(centi as int == round_centi(p@));
    let mut out = String::new();
    push_digits(centi / 100, &mut out);
    out.append(".");
    out.append(digit_str(centi / 10 % 10));
    out.append(digit_str(centi % 10));
    proof {
        reveal_strlit(".");
        assert(out@ =~= centi_text(p@));
    }
    out
}

} // verus!
