use vstd::prelude::*;
use crate::coords::Fraction;
use crate::text::pow10;

verus! {

pub open spec fn is_digit(c: char) -> bool {
    '0' <= c && c <= '9'
}

pub open spec fn digit_value(c: char) -> nat {
    (c as u32 - '0' as u32) as nat
}

pub open spec fn all_digits(s: Seq<char>) -> bool {
    forall|i: int| 0 <= i < s.len() ==> is_digit(#[trigger] s[i])
}

/// The number a run of decimal digits spells.
pub open spec fn digits_value(s: Seq<char>) -> nat
    decreases s.len(),
{
    if s.len() == 0 {
        0
    } else {
        digits_value(s.drop_last()) * 10 + digit_value(s.last())
    }
}

/// Longest digit string the parser accepts (its value fits in `i128`).
pub const MAX_DIGITS: usize = 36;

/// `k` is the position of the only point of `b`, with digits on both sides.
pub open spec fn is_point_at(b: Seq<char>, k: int) -> bool {
    &&& 0 < k < b.len() - 1
    &&& b[k] == '.'
    &&& all_digits(b.take(k))
    &&& all_digits(b.skip(k + 1))
}

/// An unsigned decimal `digits` or `digits.digits`, at most `MAX_DIGITS` characters.
pub open spec fn unsigned_decimal(b: Seq<char>) -> Option<Fraction> {
    if b.len() == 0 || b.len() > MAX_DIGITS {
        None
    } else if all_digits(b) {
        Some(Fraction { num: digits_value(b) as i128, den: 1 })
    } else if exists|k: int| is_point_at(b, k) {
        let k = choose|k: int| is_point_at(b, k);
        Some(Fraction {
            num: digits_value(b.take(k) + b.skip(k + 1)) as i128,
            den: pow10((b.len() - k - 1) as nat) as u128,
        })
    } else {
        None
    }
}

/// Largest numerator or denominator a number may scale to.
pub open spec fn scale_bound() -> int {
    1_000_000_000_000_000_000_000_000_000_000_000_000
}

pub open spec fn is_exp_marker(c: char) -> bool {
    c == 'e' || c == 'E'
}

/// `k` is the position of the first exponent marker of `b`.
pub open spec fn is_exp_at(b: Seq<char>, k: int) -> bool {
    &&& 0 <= k < b.len()
    &&& is_exp_marker(b[k])
    &&& forall|j: int| 0 <= j < k ==> !is_exp_marker(#[trigger] b[j])
}

/// An exponent: an optional sign, then one to three digits.
pub open spec fn exponent_value(t: Seq<char>) -> Option<int> {
    let neg = t.len() > 0 && t[0] == '-';
    let signed = t.len() > 0 && (t[0] == '-' || t[0] == '+');
    let d = if signed { t.skip(1) } else { t };
    if 0 < d.len() <= 3 && all_digits(d) {
        Some(if neg { -digits_value(d) } else { digits_value(d) as int })
    } else {
        None
    }
}

/// `f` times `10^e`, when the result's numerator and denominator stay
/// within `scale_bound`.
pub open spec fn scaled(f: Fraction, e: int) -> Option<Fraction> {
    if e >= 0 {
        if f.num * pow10(e as nat) <= scale_bound() {
            Some(Fraction { num: (f.num * pow10(e as nat)) as i128, den: f.den })
        } else {
            None
        }
    } else if f.den * pow10((-e) as nat) <= scale_bound() {
        Some(Fraction { num: f.num, den: (f.den * pow10((-e) as nat)) as u128 })
    } else {
        None
    }
}

/// An unsigned decimal, optionally followed by an exponent (`1.5e20`, `1e-7`).
pub open spec fn unsigned_number(b: Seq<char>) -> Option<Fraction> {
    if exists|k: int| is_exp_at(b, k) {
        let k = choose|k: int| is_exp_at(b, k);
        match (unsigned_decimal(b.take(k)), exponent_value(b.skip(k + 1))) {
            (Some(f), Some(e)) => scaled(f, e),
            _ => None,
        }
    } else {
        unsigned_decimal(b)
    }
}

/// The value of a decimal number's text: an optional minus sign, then an
/// unsigned decimal with an optional exponent. Other text has none, and so
/// has a number whose exact fraction would leave `scale_bound`.
pub open spec fn decimal_value(s: Seq<char>) -> Option<Fraction> {
    if s.len() > 0 && s[0] == '-' {
        match unsigned_number(s.skip(1)) {
            Some(f) => Some(Fraction { num: (-f.num) as i128, den: f.den }),
            None => None,
        }
    } else {
        unsigned_number(s)
    }
}

proof fn lemma_digits_bound(s: Seq<char>)
    requires
        all_digits(s),
    ensures
        digits_value(s) < pow10(s.len()),
    decreases s.len(),
{
    if s.len() > 0 {
        let d = s.drop_last();
        assert(all_digits(d)) by {
            assert forall|i: int| 0 <= i < d.len() implies is_digit(#[trigger] d[i]) by {
                assert(d[i] == s[i]);
            }
        }
        lemma_digits_bound(d);
        assert(is_digit(s[s.len() - 1]));
    }
}

proof fn lemma_pow10_36(k: nat)
    requires
        k <= 36,
    ensures
        1 <= pow10(k) <= 1_000_000_000_000_000_000_000_000_000_000_000_000,
    decreases 36 - k,
{
    if k < 36 {
        lemma_pow10_36(k + 1);
        assert(pow10(k + 1) == 10 * pow10(k));
    } else {
        reveal_with_fuel(pow10, 37);
    }
}

/// Parses the unsigned part `s[from..]`.
fn parse_unsigned(s: &str, from: usize) -> (r: Option<Fraction>)
    requires
        from <= s@.len(),
    ensures
        r == unsigned_decimal(s@.skip(from as int)),
        r matches Some(f) ==> f.wf() && f.den <= 1_000_000_000_000_000_000_000_000_000_000_000_000,
        r matches Some(f) ==> 0 <= f.num <= 1_000_000_000_000_000_000_000_000_000_000_000_000,
{
    let n = s.unicode_len();
    let ghost b = s@.skip(from as int);
    if n - from == 0 || n - from > MAX_DIGITS {
        return None;
    }
    let len = n - from;
    // where the point is, if there is exactly one and all else are digits
    let mut dot: Option<usize> = None;
    let mut i: usize = 0;
    while i < len
        invariant
            n == s@.len(),
            b == s@.skip(from as int),
            len == b.len(),
            from + len == n,
            0 <= i <= len,
            dot matches Some(k) ==> k < i && b[k as int] == '.',
            forall|j: int| 0 <= j < i && (dot matches Some(k) ==> j != k) ==> is_digit(#[trigger] b[j]),
        decreases len - i,
    {
        let c = s.get_char(from + i);
        assert(c == b[i as int]);
        if c == '.' && dot.is_none() {
            dot = Some(i);
        } else if !('0' <= c && c <= '9') {
            proof {
                assert(!all_digits(b));
                assert forall|k: int| !is_point_at(b, k) by {
                    if is_point_at(b, k) {
                        if i < k {
                            assert(b.take(k)[i as int] == c);
                        } else if i > k {
                            assert(b.skip(k + 1)[i - k - 1] == c);
                        } else {
                            // a second point, at `i`, after the first
                            let k0 = dot->0 as int;
                            assert(b.take(k)[k0] == '.');
                        }
                    }
                }
            }
            return None;
        }
        i = i + 1;
    }
    let k: usize = match dot {
        None => len,
        Some(k) => k,
    };
    if dot.is_some() && (k == 0 || k == len - 1) {
        proof {
            assert(!all_digits(b)) by { assert(!is_digit(b[k as int])); }
            assert forall|j: int| !is_point_at(b, j) by {
                if is_point_at(b, j) && j != k {
                    if k < j {
                        assert(b.take(j)[k as int] == '.');
                    } else {
                        assert(b.skip(j + 1)[k - j - 1] == '.');
                    }
                }
            }
        }
        return None;
    }
    // the digits, point skipped
    let ghost c = if dot is Some { b.take(k as int) + b.skip(k + 1) } else { b };
    let ghost m = c.len();
    assert(all_digits(c)) by {
        assert forall|j: int| 0 <= j < c.len() implies is_digit(#[trigger] c[j]) by {
            if dot is Some {
                if j < k {
                    assert(c[j] == b[j]);
                } else {
                    assert(c[j] == b[j + 1]);
                }
            } else {
                assert(c[j] == b[j]);
            }
        }
    }
    let mut acc: u128 = 0;
    let mut t: usize = 0;
    let mut used: usize = 0;
    proof {
        lemma_pow10_36(m);
        lemma_digits_bound(c);
        assert(c.take(0) == Seq::<char>::empty());
    }
    while t < len
        invariant
            n == s@.len(),
            b == s@.skip(from as int),
            len == b.len(),
            len <= MAX_DIGITS,
            from + len == n,
            0 <= t <= len,
            all_digits(c),
            c == (if dot is Some { b.take(k as int) + b.skip(k + 1) } else { b }),
            dot is Some ==> k < len,
            dot is None ==> k == len,
            used as int == (if dot is Some && t > k { t - 1 } else { t as int }),
            used <= c.len(),
            acc == digits_value(c.take(used as int)),
            acc < pow10(used as nat),
            c.len() <= 36,
        decreases len - t,
    {
        if dot.is_some() && t == k {
            t = t + 1;
        } else {
            let ch = s.get_char(from + t);
            proof {
                if dot is Some && t > k {
                    assert(c[used as int] == b[t as int]);
                } else {
                    assert(c[used as int] == b[t as int]);
                }
                assert(c.take(used + 1).drop_last() == c.take(used as int));
                assert(c.take(used + 1).last() == ch);
                lemma_pow10_36((used + 1) as nat);
                assert(acc * 10 + digit_value(ch) < pow10((used + 1) as nat)) by (nonlinear_arith)
                    requires
                        acc < pow10(used as nat),
                        digit_value(ch) < 10,
                        pow10((used + 1) as nat) == 10 * pow10(used as nat);
            }
            acc = acc * 10 + (ch as u32 - '0' as u32) as u128;
            used = used + 1;
            t = t + 1;
        }
    }
    assert(c.take(used as int) == c);
    let den: u128 = match dot {
        None => 1,
        Some(k) => pow10_exec((len - k - 1) as u32),
    };
    proof {
        lemma_pow10_36(m);
        if dot is Some {
            lemma_pow10_36((len - k - 1) as nat);
            assert(is_point_at(b, k as int));
            assert forall|j: int| is_point_at(b, j) implies j == k by {
                if j != k {
                    if k < j {
                        assert(b.take(j)[k as int] == '.');
                    } else {
                        assert(b.skip(j + 1)[k - j - 1] == '.');
                    }
                }
            }
            assert(!all_digits(b)) by { assert(!is_digit(b[k as int])); }
        }
    }
    Some(Fraction { num: acc as i128, den })
}

fn pow10_exec(k: u32) -> (r: u128)
    requires
        k <= 36,
    ensures
        r == pow10(k as nat),
    decreases k,
{
    proof {
        lemma_pow10_36(k as nat);
    }
    if k == 0 {
        1
    } else {
        let p = pow10_exec(k - 1);
        proof {
            lemma_pow10_36((k - 1) as nat);
        }
        10 * p
    }
}

/// Parses an exponent `t`: optional sign, one to three digits.
fn parse_exponent(t: &str) -> (r: Option<i32>)
    ensures
        match r {
            Some(e) => exponent_value(t@) == Some(e as int) && -999 <= e <= 999,
            None => exponent_value(t@) is None,
        },
{
    let n = t.unicode_len();
    let mut i: usize = 0;
    let mut neg = false;
    if n > 0 {
        let c = t.get_char(0);
        if c == '-' || c == '+' {
            neg = c == '-';
            i = 1;
        }
    }
    let ghost d = t@.skip(i as int);
    let ghost signed = t@.len() > 0 && (t@[0] == '-' || t@[0] == '+');
    assert(i == (if signed { 1usize } else { 0usize }));
    assert(neg == (t@.len() > 0 && t@[0] == '-'));
    assert(!signed ==> d == t@);
    if n - i == 0 || n - i > 3 {
        return None;
    }
    let start = i;
    let mut v: i32 = 0;
    assert(d.take(0) == Seq::<char>::empty());
    while i < n
        invariant
            n == t@.len(),
            start <= i <= n,
            n - start <= 3,
            d == t@.skip(start as int),
            start == (if signed { 1usize } else { 0usize }),
            signed == (t@.len() > 0 && (t@[0] == '-' || t@[0] == '+')),
            neg == (t@.len() > 0 && t@[0] == '-'),
            !signed ==> d == t@,
            forall|j: int| 0 <= j < i - start ==> is_digit(#[trigger] d[j]),
            v as int == digits_value(d.take(i - start)),
            v < pow10((i - start) as nat),
        decreases n - i,
    {
        let c = t.get_char(i);
        assert(c == d[i - start]);
        if !('0' <= c && c <= '9') {
            assert(!all_digits(d)) by {
                assert(!is_digit(d[i - start]));
            }
            return None;
        }
        proof {
            assert(d.take(i - start + 1).drop_last() == d.take(i - start));
            assert(v * 10 + digit_value(c) < pow10((i - start + 1) as nat)) by (nonlinear_arith)
                requires
                    v < pow10((i - start) as nat),
                    digit_value(c) < 10,
                    pow10((i - start + 1) as nat) == 10 * pow10((i - start) as nat);
            lemma_pow10_36((i - start + 1) as nat);
            reveal_with_fuel(pow10, 4);
        }
        v = v * 10 + (c as u32 - '0' as u32) as i32;
        i = i + 1;
    }
    assert(d.take(n - start) == d);
    assert(all_digits(d));
    proof {
        reveal_with_fuel(pow10, 4);
        assert(pow10((n - start) as nat) <= 1000);
    }
    if neg { Some(-v) } else { Some(v) }
}

/// Multiplies `f` by `10^e` within `scale_bound`.
fn scale(f: Fraction, e: i32) -> (r: Option<Fraction>)
    requires
        0 <= f.num <= scale_bound(),
        0 < f.den <= scale_bound(),
    ensures
        r == scaled(f, e as int),
        r matches Some(g) ==> g.wf() && g.den <= scale_bound() && 0 <= g.num <= scale_bound(),
{
    let bound: u128 = 1_000_000_000_000_000_000_000_000_000_000_000_000;
    if e >= 0 {
        if f.num == 0 {
            assert(f.num * pow10(e as nat) == 0) by (nonlinear_arith)
                requires f.num == 0;
            return Some(f);
        }
        if e > 36 {
            proof {
                reveal_with_fuel(pow10, 38);
                assert(pow10(37) == 10_000_000_000_000_000_000_000_000_000_000_000_000);
                lemma_pow10_mono37(e as nat);
                assert(f.num * pow10(e as nat) >= pow10(e as nat)) by (nonlinear_arith)
                    requires f.num >= 1, pow10(e as nat) >= 0;
            }
            return None;
        }
        let p = pow10_exec(e as u32);
        proof {
            lemma_pow10_36(e as nat);
        }
        let num = f.num as u128;
        if num <= bound / p {
            assert(num * p <= bound) by (nonlinear_arith)
                requires num <= bound / p, p > 0;
            Some(Fraction { num: (num * p) as i128, den: f.den })
        } else {
            assert(num * p > bound) by (nonlinear_arith)
                requires num > bound / p, p > 0;
            None
        }
    } else {
        if e < -36 {
            proof {
                reveal_with_fuel(pow10, 38);
                assert(pow10(37) == 10_000_000_000_000_000_000_000_000_000_000_000_000);
                lemma_pow10_mono37((-e) as nat);
                assert(f.den * pow10((-e) as nat) >= pow10((-e) as nat)) by (nonlinear_arith)
                    requires f.den >= 1, pow10((-e) as nat) >= 0;
            }
            return None;
        }
        let p = pow10_exec((-e) as u32);
        proof {
            lemma_pow10_36((-e) as nat);
        }
        let den = f.den;
        if den <= bound / p {
            assert(den * p <= bound && den * p > 0) by (nonlinear_arith)
                requires den <= bound / p, p > 0, den > 0;
            Some(Fraction { num: f.num, den: den * p })
        } else {
            assert(den * p > bound) by (nonlinear_arith)
                requires den > bound / p, p > 0;
            None
        }
    }
}

proof fn lemma_pow10_mono37(k: nat)
    requires
        k >= 37,
    ensures
        pow10(k) >= pow10(37),
    decreases k,
{
    if k > 37 {
        lemma_pow10_mono37((k - 1) as nat);
    }
}

/// Parses an unsigned number `b`: decimal digits with an optional point, then
/// an optional exponent.
fn parse_unsigned_number(b: &str) -> (r: Option<Fraction>)
    ensures
        r == unsigned_number(b@),
        r matches Some(f) ==> f.wf() && f.den <= scale_bound() && 0 <= f.num <= scale_bound(),
{
    let n = b.unicode_len();
    let mut k: usize = 0;
    while k < n
        invariant
            n == b@.len(),
            k <= n,
            forall|j: int| 0 <= j < k ==> !is_exp_marker(#[trigger] b@[j]),
        ensures
            k <= n,
            forall|j: int| 0 <= j < k ==> !is_exp_marker(#[trigger] b@[j]),
            k < n ==> is_exp_marker(b@[k as int]),
        decreases n - k,
    {
        let c = b.get_char(k);
        if c == 'e' || c == 'E' {
            break;
        }
        k = k + 1;
    }
    if k == n {
        proof {
            assert forall|j: int| !is_exp_at(b@, j) by {}
            assert(b@.skip(0) == b@);
        }
        return parse_unsigned(b, 0);
    }
    proof {
        assert(is_exp_at(b@, k as int));
        assert forall|j: int| is_exp_at(b@, j) implies j == k by {
            if j > k {
                assert(!is_exp_marker(b@[k as int]));
            }
        }
    }
    let mant = b.substring_char(0, k);
    let exp = b.substring_char(k + 1, n);
    assert(mant@ == b@.take(k as int));
    assert(exp@ == b@.skip(k + 1));
    assert(mant@.skip(0) == mant@);
    match (parse_unsigned(mant, 0), parse_exponent(exp)) {
        (Some(f), Some(e)) => {
            proof {
                lemma_pow10_36(0);
            }
            scale(f, e)
        },
        _ => None,
    }
}

/// Reads the text of a decimal number: optional minus sign, digits, an
/// optional point with digits after it (at most `MAX_DIGITS` characters up to
/// here), then an optional exponent of one to three digits. `None` for any
/// other text, and for a value whose exact fraction would leave `scale_bound`.
pub fn parse_decimal(s: &str) -> (r: Option<Fraction>)
    ensures
        r == decimal_value(s@),
        r matches Some(f) ==> f.wf() && f.den <= 1_000_000_000_000_000_000_000_000_000_000_000_000,
        r matches Some(f) ==> -1_000_000_000_000_000_000_000_000_000_000_000_000 <= f.num
            <= 1_000_000_000_000_000_000_000_000_000_000_000_000,
{
    let n = s.unicode_len();
    if n > 0 && s.get_char(0) == '-' {
        let rest = s.substring_char(1, n);
        assert(rest@ == s@.skip(1));
        match parse_unsigned_number(rest) {
            Some(f) => Some(Fraction { num: -f.num, den: f.den }),
            None => None,
        }
    } else {
        parse_unsigned_number(s)
    }
}

} // verus!
