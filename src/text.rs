use vstd::prelude::*;
use crate::coords::Fraction;

verus! {

pub open spec fn digit_char(d: nat) -> char {
    if d == 0 { '0' }
    else if d == 1 { '1' }
    else if d == 2 { '2' }
    else if d == 3 { '3' }
    else if d == 4 { '4' }
    else if d == 5 { '5' }
    else if d == 6 { '6' }
    else if d == 7 { '7' }
    else if d == 8 { '8' }
    else { '9' }
}

/// Decimal digits of `n`, without leading zeros.
pub open spec fn nat_text(n: nat) -> Seq<char>
    decreases n,
{
    if n < 10 {
        seq![digit_char(n)]
    } else {
        nat_text(n / 10).push(digit_char(n % 10))
    }
}

/// The last `width` decimal digits of `n`, zero-padded on the left.
pub open spec fn padded_text(n: nat, width: nat) -> Seq<char>
    decreases width,
{
    if width == 0 {
        Seq::empty()
    } else {
        padded_text(n / 10, (width - 1) as nat).push(digit_char(n % 10))
    }
}

fn digit_str(d: u64) -> (r: &'static str)
    requires
        d < 10,
    ensures
        r@ == seq![digit_char(d as nat)],
{
    proof {
        reveal_strlit("0");
        reveal_strlit("1");
        reveal_strlit("2");
        reveal_strlit("3");
        reveal_strlit("4");
        reveal_strlit("5");
        reveal_strlit("6");
        reveal_strlit("7");
        reveal_strlit("8");
        reveal_strlit("9");
    }
    if d == 0 { "0" }
    else if d == 1 { "1" }
    else if d == 2 { "2" }
    else if d == 3 { "3" }
    else if d == 4 { "4" }
    else if d == 5 { "5" }
    else if d == 6 { "6" }
    else if d == 7 { "7" }
    else if d == 8 { "8" }
    else { "9" }
}

/// Appends the decimal digits of `n`.
pub fn write_nat(out: &mut String, n: u128)
    ensures
        final(out)@ == old(out)@ + nat_text(n as nat),
    decreases n,
{
    if n >= 10 {
        write_nat(out, n / 10);
    }
    out.append(digit_str((n % 10) as u64));
    proof {
        if n >= 10 {
            assert(old(out)@ + nat_text((n / 10) as nat) + seq![digit_char((n % 10) as nat)]
                == old(out)@ + nat_text(n as nat));
        } else {
            assert(old(out)@ + seq![digit_char((n % 10) as nat)] == old(out)@ + nat_text(n as nat));
        }
    }
}

/// Appends the last `width` decimal digits of `n`, zero-padded.
fn write_padded(out: &mut String, n: u128, width: u32)
    ensures
        final(out)@ == old(out)@ + padded_text(n as nat, width as nat),
    decreases width,
{
    if width > 0 {
        write_padded(out, n / 10, width - 1);
        out.append(digit_str((n % 10) as u64));
        assert(old(out)@ + padded_text((n / 10) as nat, (width - 1) as nat) + seq![digit_char((n % 10) as nat)]
            == old(out)@ + padded_text(n as nat, width as nat));
    } else {
        assert(old(out)@ + Seq::<char>::empty() == old(out)@);
    }
}

/// Decimal text of an integer: a minus sign when negative, then its digits.
pub open spec fn int_text(n: int) -> Seq<char> {
    if n < 0 {
        seq!['-'] + nat_text((-n) as nat)
    } else {
        nat_text(n as nat)
    }
}

/// Appends the decimal text of an integer.
pub fn write_int(out: &mut String, n: i64)
    ensures
        final(out)@ == old(out)@ + int_text(n as int),
{
    proof {
        reveal_strlit("-");
    }
    if n < 0 {
        out.append("-");
        let m: u128 = (-(n as i128)) as u128;
        write_nat(out, m);
        assert(old(out)@ + seq!['-'] + nat_text(m as nat) == old(out)@ + (seq!['-'] + nat_text(m as nat)));
    } else {
        write_nat(out, n as u128);
    }
}

pub open spec fn pow10(k: nat) -> nat
    decreases k,
{
    if k == 0 { 1 } else { 10 * pow10((k - 1) as nat) }
}

pub open spec fn abs(n: int) -> nat {
    if n < 0 { (-n) as nat } else { n as nat }
}

proof fn lemma_pow10_mono(j: nat, k: nat)
    requires
        j <= k,
    ensures
        1 <= pow10(j) <= pow10(k),
    decreases k,
{
    if k > j {
        lemma_pow10_mono(j, (k - 1) as nat);
    } else if k > 0 {
        lemma_pow10_mono(0, (k - 1) as nat);
    }
}

proof fn lemma_pow10_bound(k: nat)
    requires
        k <= 18,
    ensures
        1 <= pow10(k) <= 1_000_000_000_000_000_000,
{
    lemma_pow10_mono(k, 18);
    reveal_with_fuel(pow10, 19);
    assert(pow10(18) == 1_000_000_000_000_000_000);
}

/// `r0 * 10^places / d`, rounded down, by long division.
fn scaled_fraction(r0: u128, d: u128, places: u32) -> (q: u128)
    requires
        0 < d < 0x1000_0000_0000_0000_0000_0000_0000_0000,
        r0 < d,
        places <= 18,
    ensures
        q as int == (r0 * pow10(places as nat)) / (d as int),
        q < pow10(places as nat),
{
    let mut r = r0;
    let mut q: u128 = 0;
    let mut i: u32 = 0;
    proof {
        lemma_pow10_bound(places as nat);
        assert(pow10(0) == 1);
    }
    while i < places
        invariant
            0 < d < 0x1000_0000_0000_0000_0000_0000_0000_0000,
            r < d,
            i <= places,
            places <= 18,
            q * d + r == r0 * pow10(i as nat),
            q < pow10(i as nat),
        decreases places - i,
    {
        proof {
            lemma_pow10_bound((i + 1) as nat);
        }
        assert(r * 10 < 0x1_0000_0000_0000_0000_0000_0000_0000_0000) by (nonlinear_arith)
            requires r < d, d < 0x1000_0000_0000_0000_0000_0000_0000_0000;
        let t = r * 10;
        let digit = t / d;
        let r1 = t % d;
        assert(digit < 10 && t == digit * d + r1) by (nonlinear_arith)
            requires t == r * 10, r < d, digit == t / d, r1 == t % d, d > 0;
        assert(q * 10 + digit < pow10((i + 1) as nat)) by (nonlinear_arith)
            requires q < pow10(i as nat), digit < 10, pow10((i + 1) as nat) == 10 * pow10(i as nat);
        let q1 = q * 10 + digit;
        assert(q1 * d + r1 == r0 * pow10((i + 1) as nat)) by (nonlinear_arith)
            requires
                q1 == q * 10 + digit,
                t == digit * d + r1,
                t == r * 10,
                q * d + r == r0 * pow10(i as nat),
                pow10((i + 1) as nat) == 10 * pow10(i as nat);
        q = q1;
        r = r1;
        i = i + 1;
    }
    proof {
        vstd::arithmetic::div_mod::lemma_fundamental_div_mod_converse(
            r0 * pow10(places as nat) as int, d as int, q as int, r as int);
    }
    q
}

/// The fractional digits `q` (of `places` digits) with trailing zeros removed:
/// the remaining value and digit count.
pub open spec fn trim_zeros(q: nat, places: nat) -> (nat, nat)
    decreases places,
{
    if places > 0 && q % 10 == 0 {
        trim_zeros(q / 10, (places - 1) as nat)
    } else {
        (q, places)
    }
}

/// A fraction in decimal, truncated toward zero after `places` digits, with
/// trailing zeros of the fraction (and a bare point) left out.
pub open spec fn short_text(f: Fraction, places: nat) -> Seq<char> {
    let a = abs(f.num as int);
    let d = f.den as nat;
    let sign = if f.num < 0 { seq!['-'] } else { Seq::empty() };
    let t = trim_zeros(((a % d) * pow10(places)) / d, places);
    let frac = if t.1 == 0 { Seq::empty() } else { seq!['.'] + padded_text(t.0, t.1) };
    sign + nat_text(a / d) + frac
}

/// Appends a fraction in decimal with at most `places` fractional digits,
/// truncated toward zero, without trailing zeros.
pub fn write_short(out: &mut String, f: Fraction, places: u32)
    requires
        f.wf(),
        places <= 18,
        f.den < 0x1000_0000_0000_0000_0000_0000_0000_0000,
    ensures
        final(out)@ == old(out)@ + short_text(f, places as nat),
{
    proof {
        reveal_strlit("-");
        reveal_strlit(".");
    }
    let a: u128 = if f.num < 0 { (-(f.num as i128 + 1)) as u128 + 1 } else { f.num as u128 };
    assert(a as int == abs(f.num as int));
    let d = f.den;
    let ghost start = old(out)@;
    if f.num < 0 {
        out.append("-");
    }
    let ghost signed = out@;
    write_nat(out, a / d);
    let ghost whole = out@;
    let mut q = scaled_fraction(a % d, d, places);
    let mut p = places;
    let ghost q0 = q as nat;
    while p > 0 && q % 10 == 0
        invariant
            p <= places,
            trim_zeros(q as nat, p as nat) == trim_zeros(q0, places as nat),
        decreases p,
    {
        q = q / 10;
        p = p - 1;
    }
    assert(trim_zeros(q as nat, p as nat) == (q as nat, p as nat));
    if p > 0 {
        out.append(".");
        write_padded(out, q, p);
        assert(out@ == whole + (seq!['.'] + padded_text(q as nat, p as nat)));
    } else {
        assert(out@ == whole + Seq::<char>::empty());
    }
    proof {
        let sign = if f.num < 0 { seq!['-'] } else { Seq::<char>::empty() };
        assert(signed == start + sign);
        assert(out@ == start + short_text(f, places as nat));
    }
}

} // verus!
