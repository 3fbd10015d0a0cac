use vstd::prelude::*;

verus! {

/// An unsigned rational as stored in EXIF GPS tags: `num / den`.
#[derive(Clone, Copy, Debug, PartialEq, Eq, Structural)]
pub struct URational {
    pub num: u32,
    pub den: u32,
}

/// One GPS axis in sexagesimal form: degrees, minutes and seconds.
#[derive(Clone, Copy, Debug, PartialEq, Eq, Structural)]
pub struct LatLng {
    pub degrees: URational,
    pub minutes: URational,
    pub seconds: URational,
}

/// An exact signed fraction `num / den`; well formed when `den > 0`.
#[derive(Clone, Copy, Debug, PartialEq, Eq, Structural)]
pub struct Fraction {
    pub num: i128,
    pub den: u128,
}

impl Fraction {
    pub open spec fn wf(self) -> bool {
        self.den > 0
    }

    /// The fraction denotes the rational `n / d`.
    pub open spec fn denotes(self, n: int, d: int) -> bool {
        self.num * d == n * self.den
    }
}

/// Hemisphere references that make a coordinate negative.
pub open spec fn is_negative_ref(c: char) -> bool {
    c == 'S' || c == 'W'
}

pub open spec fn has_valid_denominators(ll: LatLng) -> bool {
    ll.degrees.den != 0 && ll.minutes.den != 0 && ll.seconds.den != 0
}

/// Common denominator of `d + m/60 + s/3600`.
pub open spec fn sexagesimal_den(ll: LatLng) -> int {
    3600 * ll.degrees.den * ll.minutes.den * ll.seconds.den
}

/// Numerator of `d + m/60 + s/3600` over `sexagesimal_den`.
pub open spec fn sexagesimal_num(ll: LatLng) -> int {
    3600 * ll.degrees.num * ll.minutes.den * ll.seconds.den
        + 60 * ll.minutes.num * ll.degrees.den * ll.seconds.den
        + ll.seconds.num * ll.degrees.den * ll.minutes.den
}

/// Signed decimal degrees of a sexagesimal axis and its hemisphere reference.
/// A zero denominator has no finite value: there is no coordinate then.
pub open spec fn decimal_degrees(ll: LatLng, hemisphere: char) -> Option<Fraction> {
    if !has_valid_denominators(ll) {
        None
    } else if is_negative_ref(hemisphere) {
        Some(Fraction { num: (-sexagesimal_num(ll)) as i128, den: sexagesimal_den(ll) as u128 })
    } else {
        Some(Fraction { num: sexagesimal_num(ll) as i128, den: sexagesimal_den(ll) as u128 })
    }
}

proof fn lemma_sexagesimal_bounds(ll: LatLng)
    ensures
        0 <= sexagesimal_num(ll) < 0x1_0000_0000_0000_0000_0000_0000_0000,
        0 <= sexagesimal_den(ll) < 0x1_0000_0000_0000_0000_0000_0000_0000,
        has_valid_denominators(ll) ==> sexagesimal_den(ll) > 0,
{
    let a = ll.degrees.num as int;
    let b = ll.degrees.den as int;
    let c = ll.minutes.num as int;
    let d = ll.minutes.den as int;
    let e = ll.seconds.num as int;
    let f = ll.seconds.den as int;
    let m: int = 0x1_0000_0000;
    assert(0 <= a * d * f <= m * m * m) by (nonlinear_arith)
        requires 0 <= a < m, 0 <= d < m, 0 <= f < m;
    assert(0 <= c * b * f <= m * m * m) by (nonlinear_arith)
        requires 0 <= c < m, 0 <= b < m, 0 <= f < m;
    assert(0 <= e * b * d <= m * m * m) by (nonlinear_arith)
        requires 0 <= e < m, 0 <= b < m, 0 <= d < m;
    assert(0 <= b * d * f <= m * m * m) by (nonlinear_arith)
        requires 0 <= b < m, 0 <= d < m, 0 <= f < m;
    assert(b != 0 && d != 0 && f != 0 ==> b * d * f > 0) by (nonlinear_arith)
        requires 0 <= b, 0 <= d, 0 <= f;
    assert(m * m * m == 0x1_0000_0000_0000_0000_0000_0000);
    assert(3600 * a * d * f == 3600 * (a * d * f)) by (nonlinear_arith);
    assert(60 * c * b * f == 60 * (c * b * f)) by (nonlinear_arith);
    assert(3600 * b * d * f == 3600 * (b * d * f)) by (nonlinear_arith);
}

/// Converts a sexagesimal GPS axis to exact signed decimal degrees:
/// `degrees + minutes / 60 + seconds / 3600`, negated for `S` and `W`.
/// Returns `None` when a denominator is zero (no finite value).
pub fn convert_latlng(ll: &LatLng, ref_char: char) -> (r: Option<Fraction>)
    ensures
        r == decimal_degrees(*ll, ref_char),
        r matches Some(f) ==> f.wf(),
{
    if ll.degrees.den == 0 || ll.minutes.den == 0 || ll.seconds.den == 0 {
        return None;
    }
    proof {
        lemma_sexagesimal_bounds(*ll);
    }
    let dn = ll.degrees.num as u128;
    let dd = ll.degrees.den as u128;
    let mn = ll.minutes.num as u128;
    let md = ll.minutes.den as u128;
    let sn = ll.seconds.num as u128;
    let sd = ll.seconds.den as u128;
    let m: u128 = 0x1_0000_0000;
    assert(dn * md * sd <= m * m * m) by (nonlinear_arith)
        requires dn < m, md < m, sd < m;
    assert(mn * dd * sd <= m * m * m) by (nonlinear_arith)
        requires mn < m, dd < m, sd < m;
    assert(sn * dd * md <= m * m * m) by (nonlinear_arith)
        requires sn < m, dd < m, md < m;
    assert(dd * md * sd <= m * m * m) by (nonlinear_arith)
        requires dd < m, md < m, sd < m;
    assert(dn * md <= m * m) by (nonlinear_arith)
        requires dn < m, md < m;
    assert(mn * dd <= m * m) by (nonlinear_arith)
        requires mn < m, dd < m;
    assert(sn * dd <= m * m) by (nonlinear_arith)
        requires sn < m, dd < m;
    assert(dd * md <= m * m) by (nonlinear_arith)
        requires dd < m, md < m;
    let whole = dn * md * sd;
    let mins = mn * dd * sd;
    let secs = sn * dd * md;
    let den = dd * md * sd;
    assert(3600 * dn * md * sd == 3600 * whole) by (nonlinear_arith)
        requires whole == dn * md * sd;
    assert(60 * mn * dd * sd == 60 * mins) by (nonlinear_arith)
        requires mins == mn * dd * sd;
    assert(3600 * dd * md * sd == 3600 * den) by (nonlinear_arith)
        requires den == dd * md * sd;
    let total: u128 = 3600 * whole + 60 * mins + secs;
    let den_total: u128 = 3600 * den;
    if ref_char == 'S' || ref_char == 'W' {
        Some(Fraction { num: -(total as i128), den: den_total })
    } else {
        Some(Fraction { num: total as i128, den: den_total })
    }
}

/// A coordinate is never negative for `N`/`E` (or any other reference) and
/// never positive for `S`/`W`; its denominator is positive.
pub proof fn lemma_coordinate_sign(ll: LatLng, hemisphere: char)
    requires
        has_valid_denominators(ll),
    ensures
        decimal_degrees(ll, hemisphere) is Some,
        decimal_degrees(ll, hemisphere)->0.wf(),
        is_negative_ref(hemisphere) ==> decimal_degrees(ll, hemisphere)->0.num <= 0,
        !is_negative_ref(hemisphere) ==> decimal_degrees(ll, hemisphere)->0.num >= 0,
{
    lemma_sexagesimal_bounds(ll);
}

} // verus!
