//! The sixteen-point compass: from a bearing in degrees to a direction.

use crate::number::Binary64;
use crate::number::HIDDEN_BIT;
use vstd::arithmetic::div_mod::*;
use vstd::arithmetic::mul::*;
use vstd::arithmetic::power2::*;
use vstd::prelude::*;

verus! {

/// The integer nearest to `n / d`, for `d > 0`; a tie goes away from zero.
pub open spec fn nearest(n: int, d: int) -> int
    recommends
        d > 0,
{
    if n >= 0 {
        (2 * n + d) / (2 * d)
    } else {
        -((d - 2 * n) / (2 * d))
    }
}

/// The compass sector, from 0 (north) clockwise to 15, of a bearing of
/// `num / den` degrees: the bearing is divided by 22.5, rounded to the
/// nearest integer and reduced modulo 16.
pub open spec fn sector(num: int, den: int) -> int
    recommends
        den > 0,
{
    nearest(2 * num, 45 * den) % 16
}

/// Whether `num / den` degrees lies exactly halfway between two sectors.
pub open spec fn on_sector_boundary(num: int, den: int) -> bool
    recommends
        den > 0,
{
    (4 * num + 45 * den) % (90 * den) == 0
}

/// One of the sixteen compass points, clockwise from north.
#[derive(Clone, Copy, Debug, PartialEq, Eq, Structural)]
pub enum Direction {
    N,
    NNE,
    NE,
    ENE,
    E,
    ESE,
    SE,
    SSE,
    S,
    SSW,
    SW,
    WSW,
    W,
    WNW,
    NW,
    NNW,
}

impl Direction {
    /// The point of sector `i`; north for an `i` outside `0..16`.
    pub open spec fn at(i: int) -> Direction {
        if i == 1 {
            Direction::NNE
        } else if i == 2 {
            Direction::NE
        } else if i == 3 {
            Direction::ENE
        } else if i == 4 {
            Direction::E
        } else if i == 5 {
            Direction::ESE
        } else if i == 6 {
            Direction::SE
        } else if i == 7 {
            Direction::SSE
        } else if i == 8 {
            Direction::S
        } else if i == 9 {
            Direction::SSW
        } else if i == 10 {
            Direction::SW
        } else if i == 11 {
            Direction::WSW
        } else if i == 12 {
            Direction::W
        } else if i == 13 {
            Direction::WNW
        } else if i == 14 {
            Direction::NW
        } else if i == 15 {
            Direction::NNW
        } else {
            Direction::N
        }
    }

    /// The sector of this point.
    pub open spec fn sector(self) -> int {
        match self {
            Direction::N => 0,
            Direction::NNE => 1,
            Direction::NE => 2,
            Direction::ENE => 3,
            Direction::E => 4,
            Direction::ESE => 5,
            Direction::SE => 6,
            Direction::SSE => 7,
            Direction::S => 8,
            Direction::SSW => 9,
            Direction::SW => 10,
            Direction::WSW => 11,
            Direction::W => 12,
            Direction::WNW => 13,
            Direction::NW => 14,
            Direction::NNW => 15,
        }
    }

    /// The label of this point.
    pub open spec fn label_text(self) -> Seq<char> {
        match self {
            Direction::N => "N"@,
            Direction::NNE => "NNE"@,
            Direction::NE => "NE"@,
            Direction::ENE => "ENE"@,
            Direction::E => "E"@,
            Direction::ESE => "ESE"@,
            Direction::SE => "SE"@,
            Direction::SSE => "SSE"@,
            Direction::S => "S"@,
            Direction::SSW => "SSW"@,
            Direction::SW => "SW"@,
            Direction::WSW => "WSW"@,
            Direction::W => "W"@,
            Direction::WNW => "WNW"@,
            Direction::NW => "NW"@,
            Direction::NNW => "NNW"@,
        }
    }

    /// The point of sector `i`.
    pub fn from_sector(i: u8) -> (d: Direction)
        ensures
            d == Direction::at(i as int),
            0 <= i < 16 ==> d.sector() == i,
    {
        match i {
            1 => Direction::NNE,
            2 => Direction::NE,
            3 => Direction::ENE,
            4 => Direction::E,
            5 => Direction::ESE,
            6 => Direction::SE,
            7 => Direction::SSE,
            8 => Direction::S,
            9 => Direction::SSW,
            10 => Direction::SW,
            11 => Direction::WSW,
            12 => Direction::W,
            13 => Direction::WNW,
            14 => Direction::NW,
            15 => Direction::NNW,
            _ => Direction::N,
        }
    }

    /// The sector of this point, from 0 for north to 15.
    pub fn to_sector(&self) -> (i: u8)
        ensures
            i == self.sector(),
            i < 16,
            Direction::at(i as int) == *self,
    {
        match self {
            Direction::N => 0,
            Direction::NNE => 1,
            Direction::NE => 2,
            Direction::ENE => 3,
            Direction::E => 4,
            Direction::ESE => 5,
            Direction::SE => 6,
            Direction::SSE => 7,
            Direction::S => 8,
            Direction::SSW => 9,
            Direction::SW => 10,
            Direction::WSW => 11,
            Direction::W => 12,
            Direction::WNW => 13,
            Direction::NW => 14,
            Direction::NNW => 15,
        }
    }

    /// The label of this point: `"N"`, `"NNE"`, and so on.
    pub fn label(&self) -> (s: &'static str)
        ensures
            s@ == self.label_text(),
    {
        match self {
            Direction::N => "N",
            Direction::NNE => "NNE",
            Direction::NE => "NE",
            Direction::ENE => "ENE",
            Direction::E => "E",
            Direction::ESE => "ESE",
            Direction::SE => "SE",
            Direction::SSE => "SSE",
            Direction::S => "S",
            Direction::SSW => "SSW",
            Direction::SW => "SW",
            Direction::WSW => "WSW",
            Direction::W => "W",
            Direction::WNW => "WNW",
            Direction::NW => "NW",
            Direction::NNW => "NNW",
        }
    }
}

/// The direction of a bearing: the point of its sector, and north for a
/// bearing that is not a finite number.
pub open spec fn direction_of(angle: Binary64) -> Direction {
    if angle.finite() {
        Direction::at(sector(angle.numerator(), angle.denominator()))
    } else {
        Direction::N
    }
}

/// Two to the power `e`, reduced modulo 360.
fn pow2_mod_360(e: u32) -> (r: u64)
    ensures
        r == pow2(e as nat) % 360,
        r < 360,
{
    let mut r: u64 = 1;
    let mut i: u32 = 0;
    proof {
        lemma2_to64();
    }
    while i < e
        invariant
            i <= e,
            r == pow2(i as nat) % 360,
        decreases e - i,
    {
        proof {
            lemma_pow2_unfold((i + 1) as nat);
            lemma_mul_mod_noop_right(2, pow2(i as nat) as int, 360);
        }
        r = (r * 2) % 360;
        i = i + 1;
    }
    r
}

/// Two to the power `k`, for a `k` that leaves room in 64 bits.
fn pow2_small(k: u32) -> (r: u64)
    requires
        k <= 52,
    ensures
        r == pow2(k as nat),
        1 <= r <= HIDDEN_BIT,
{
    let mut r: u64 = 1;
    let mut i: u32 = 0;
    proof {
        lemma2_to64();
    }
    while i < k
        invariant
            i <= k <= 52,
            r == pow2(i as nat),
            1 <= r <= HIDDEN_BIT,
        decreases k - i,
    {
        proof {
            lemma_pow2_unfold((i + 1) as nat);
            lemma2_to64_rest();
            if i + 1 < 52 {
                lemma_pow2_strictly_increases((i + 1) as nat, 52);
            }
        }
        r = r * 2;
        i = i + 1;
    }
    r
}

/// The whole turns of 22.5 degrees nearest to a bearing of `mag / den`
/// degrees that is not negative.
spec fn turns(mag: int, den: int) -> int {
    (4 * mag + 45 * den) / (90 * den)
}

/// The remainder of a negated number.
proof fn lemma_mod_16_of_negation(t: int)
    ensures
        (-t) % 16 == (16 - t % 16) % 16,
{
    lemma_fundamental_div_mod(t, 16);
    lemma_mod_multiples_vanish(-(t / 16) - 1, 16 - t % 16, 16);
    assert(16 * (-(t / 16) - 1) + (16 - t % 16) == -t);
}

/// The sectors of a bearing and of its mirror image, by the turns of the
/// magnitude.
proof fn lemma_sector_by_sign(mag: int, den: int)
    requires
        mag >= 0,
        den > 0,
    ensures
        sector(mag, den) == turns(mag, den) % 16,
        sector(-mag, den) == (16 - turns(mag, den) % 16) % 16,
{
    assert(2 * (2 * mag) + 45 * den == 4 * mag + 45 * den);
    assert(45 * den - 2 * (2 * (-mag)) == 4 * mag + 45 * den);
    assert(2 * (45 * den) == 90 * den);
    lemma_mod_16_of_negation(turns(mag, den));
    if mag == 0 {
        lemma_basic_div(45 * den, 90 * den);
    }
}

/// The turns of a whole number `n` of degrees, modulo 16, by `n % 360`.
proof fn lemma_turns_of_whole(n: int)
    requires
        n >= 0,
    ensures
        turns(n, 1) % 16 == ((4 * (n % 360) + 45) / 90) % 16,
{
    let q = n / 360;
    let r = n % 360;
    let t = (4 * r + 45) / 90;
    lemma_fundamental_div_mod(n, 360);
    assert((4 * n + 45) / 90 == 16 * q + t) by {
        lemma_hoist_over_denominator(4 * r + 45, 16 * q, 90);
        assert(4 * n + 45 == (4 * r + 45) + (16 * q) * 90);
    }
    lemma_mod_multiples_vanish(q, t, 16);
}

/// Away from a sector boundary, a negative bearing rounds as a positive
/// one does: to the floor of the bearing over 22.5, plus one half.
proof fn lemma_nearest_off_boundary(num: int, den: int)
    requires
        den > 0,
        !on_sector_boundary(num, den),
    ensures
        nearest(2 * num, 45 * den) == (4 * num + 45 * den) / (90 * den),
{
    let a = 4 * num + 45 * den;
    let d = 90 * den;
    assert(2 * (2 * num) + 45 * den == a);
    assert(2 * (45 * den) == d);
    if num < 0 {
        let q = a / d;
        let r = a % d;
        lemma_fundamental_div_mod(a, d);
        lemma_mod_bound(a, d);
        assert(d * q == q * d) by (nonlinear_arith);
        assert(45 * den - 2 * (2 * num) == (-q) * d + (d - r)) by (nonlinear_arith)
            requires
                a == q * d + r,
                a == 4 * num + 45 * den,
                d == 90 * den,
        ;
        lemma_fundamental_div_mod_converse(45 * den - 2 * (2 * num), d, -q, d - r);
    }
}

/// On one side of zero, a bearing turned by `k` full circles rounds to
/// `16 * k` more.
proof fn lemma_nearest_shift(num: int, den: int, k: int)
    requires
        den > 0,
        (num < 0) == (num + 360 * k * den < 0),
    ensures
        nearest(2 * (num + 360 * k * den), 45 * den) == nearest(2 * num, 45 * den) + 16 * k,
{
    let d = 90 * den;
    let turned = num + 360 * k * den;
    assert(2 * (45 * den) == d);
    if num >= 0 {
        let a = 4 * num + 45 * den;
        assert(2 * (2 * num) + 45 * den == a);
        assert(2 * (2 * turned) + 45 * den == a + (16 * k) * d) by (nonlinear_arith)
            requires
                turned == num + 360 * k * den,
                a == 4 * num + 45 * den,
                d == 90 * den,
        ;
        lemma_hoist_over_denominator(a, 16 * k, d as nat);
    } else {
        let a = 45 * den - 4 * num;
        assert(45 * den - 2 * (2 * num) == a);
        assert(45 * den - 2 * (2 * turned) == a + (-16 * k) * d) by (nonlinear_arith)
            requires
                turned == num + 360 * k * den,
                a == 45 * den - 4 * num,
                d == 90 * den,
        ;
        lemma_hoist_over_denominator(a, -16 * k, d as nat);
    }
}

/// Periodicity of the compass: a bearing of `num / den` degrees and the
/// same bearing turned by `k` full circles fall in the same sector.
///
/// The one exception is a bearing exactly halfway between two sectors whose
/// turned image lies on the other side of zero: a tie is rounded away from
/// zero, so the two fall in neighbouring sectors.
pub proof fn lemma_sector_periodic(num: int, den: int, k: int)
    requires
        den > 0,
        !(on_sector_boundary(num, den) && ((num < 0) != (num + 360 * k * den < 0))),
    ensures
        sector(num + 360 * k * den, den) == sector(num, den),
{
    let turned = num + 360 * k * den;
    if (num < 0) == (turned < 0) {
        lemma_nearest_shift(num, den, k);
        lemma_mod_multiples_vanish(k, nearest(2 * num, 45 * den), 16);
    } else {
        let d = 90 * den;
        let a = 4 * num + 45 * den;
        assert(4 * turned + 45 * den == d * (16 * k) + a) by (nonlinear_arith)
            requires
                turned == num + 360 * k * den,
                a == 4 * num + 45 * den,
                d == 90 * den,
        ;
        lemma_mod_multiples_vanish(16 * k, a, d);
        lemma_nearest_off_boundary(num, den);
        lemma_nearest_off_boundary(turned, den);
        assert(d * (16 * k) + a == a + (16 * k) * d) by (nonlinear_arith);
        lemma_hoist_over_denominator(a, 16 * k, d as nat);
        lemma_mod_multiples_vanish(k, a / d, 16);
    }
}

/// A bearing of a whole number of degrees never lies halfway between two
/// sectors, so its sector is that of the bearing reduced to one turn.
pub proof fn lemma_sector_of_whole_degrees(n: int)
    ensures
        !on_sector_boundary(n, 1),
        sector(n, 1) == sector(n % 360, 1),
        sector(n % 360, 1) == ((4 * (n % 360) + 45) / 90) % 16,
{
    assert(!on_sector_boundary(n, 1)) by {
        if (4 * n + 45) % 90 == 0 {
            lemma_fundamental_div_mod(4 * n + 45, 90);
            let q = (4 * n + 45) / 90;
            assert(45 == 2 * (45 * q - 2 * n));
        }
    }
    lemma_fundamental_div_mod(n, 360);
    let k = -(n / 360);
    assert(n + 360 * k * 1 == n % 360);
    lemma_sector_periodic(n, 1, k);
    lemma_sector_by_sign(n % 360, 1);
}

/// The result of rounding does not depend on how the fraction is written.
proof fn lemma_nearest_scaled(n: int, d: int, c: int)
    requires
        d > 0,
        c > 0,
    ensures
        nearest(c * n, c * d) == nearest(n, d),
{
    assert(c * d > 0) by (nonlinear_arith)
        requires
            c > 0,
            d > 0,
    ;
    assert((c * n >= 0) == (n >= 0)) by (nonlinear_arith)
        requires
            c > 0,
    ;
    if n >= 0 {
        assert(2 * (c * n) + c * d == c * (2 * n + d)) by (nonlinear_arith);
        assert(2 * (c * d) == c * (2 * d)) by (nonlinear_arith);
        lemma_div_multiples_vanish_quotient(c, 2 * n + d, 2 * d);
    } else {
        assert(c * d - 2 * (c * n) == c * (d - 2 * n)) by (nonlinear_arith);
        assert(2 * (c * d) == c * (2 * d)) by (nonlinear_arith);
        lemma_div_multiples_vanish_quotient(c, d - 2 * n, 2 * d);
    }
}

/// The sector of a bearing does not depend on how the fraction is written:
/// equal fractions of a degree fall in the same sector.
pub proof fn lemma_sector_of_equal_fractions(num1: int, den1: int, num2: int, den2: int)
    requires
        den1 > 0,
        den2 > 0,
        num1 * den2 == num2 * den1,
    ensures
        sector(num1, den1) == sector(num2, den2),
{
    lemma_nearest_scaled(2 * num1, 45 * den1, den2);
    lemma_nearest_scaled(2 * num2, 45 * den2, den1);
    assert(den2 * (2 * num1) == den1 * (2 * num2)) by (nonlinear_arith)
        requires
            num1 * den2 == num2 * den1,
    ;
    assert(den2 * (45 * den1) == den1 * (45 * den2)) by (nonlinear_arith);
}

/// A finite bearing of a whole number `n` of degrees points to the sector
/// of `n` degrees.
pub proof fn lemma_direction_of_whole_degrees(angle: Binary64, n: int)
    requires
        angle.finite(),
        angle.numerator() == n * angle.denominator(),
    ensures
        direction_of(angle) == Direction::at(sector(n, 1)),
{
    lemma_pow2_pos((-angle.exponent()) as nat);
    lemma_sector_of_equal_fractions(angle.numerator(), angle.denominator(), n, 1);
}

/// Periodicity of `direction_for`: two finite bearings that differ by `k`
/// full circles have the same direction.
///
/// The one exception is a bearing exactly halfway between two sectors whose
/// partner lies on the other side of zero: a tie is rounded away from zero,
/// so the two fall in neighbouring sectors.
pub proof fn lemma_direction_periodic(a: Binary64, b: Binary64, k: int)
    requires
        a.finite(),
        b.finite(),
        b.numerator() * a.denominator() == (a.numerator() + 360 * k * a.denominator())
            * b.denominator(),
        !(on_sector_boundary(a.numerator(), a.denominator()) && ((a.numerator() < 0) != (
        b.numerator() < 0))),
    ensures
        direction_of(b) == direction_of(a),
{
    let turned = a.numerator() + 360 * k * a.denominator();
    lemma_pow2_pos((-a.exponent()) as nat);
    lemma_pow2_pos((-b.exponent()) as nat);
    assert((turned < 0) == (b.numerator() < 0)) by (nonlinear_arith)
        requires
            b.numerator() * a.denominator() == turned * b.denominator(),
            a.denominator() > 0,
            b.denominator() > 0,
    ;
    lemma_sector_periodic(a.numerator(), a.denominator(), k);
    lemma_sector_of_equal_fractions(turned, a.denominator(), b.numerator(), b.denominator());
}

/// The direction of a bearing given in degrees.
///
/// The bearing is divided by 22.5 and rounded to the nearest integer, a tie
/// going away from zero; the result, reduced modulo 16 to `0..16`, counts
/// the compass points clockwise from north. A bearing that is no finite
/// number points north.
pub fn direction_for(angle: Binary64) -> (d: Direction)
    ensures
        d == direction_of(angle),
{
    if !angle.is_finite() {
        return Direction::N;
    }
    let (m, e) = angle.parts();
    let ghost den = angle.denominator();
    let ghost mag = if angle.negative() {
        -angle.numerator()
    } else {
        angle.numerator()
    };
    proof {
        lemma_pow2_pos((-e) as nat);
        if e >= 0 {
            lemma_pow2_pos(e as nat);
            lemma_mul_nonnegative(m as int, pow2(e as nat) as int);
        }
    }
    let around: u64 = if m == 0 {
        proof {
            assert(mag == 0) by (nonlinear_arith)
                requires
                    m == 0,
                    mag == m || mag == m * pow2(e as nat),
            ;
            lemma_basic_div(45 * den, 90 * den);
        }
        0
    } else if e >= 0 {
        let scale: u64 = pow2_mod_360(e as u32);
        assert((m % 360) * scale <= 359 * 359) by (nonlinear_arith)
            requires
                m % 360 <= 359,
                scale <= 359,
        ;
        let degrees: u64 = ((m % 360) * scale) % 360;
        proof {
            lemma_mul_mod_noop(m as int, pow2(e as nat) as int, 360);
            lemma_turns_of_whole(mag);
        }
        ((4 * degrees + 45) / 90) % 16
    } else if e <= -52 {
        proof {
            let k = (-e) as nat;
            lemma2_to64_rest();
            if k > 52 {
                lemma_pow2_strictly_increases(52, k);
            }
            lemma_basic_div(4 * m + 45 * den, 90 * den);
        }
        0
    } else {
        let scale: u64 = pow2_small((-e) as u32);
        ((4 * m + 45 * scale) / (90 * scale)) % 16
    };
    assert(around == turns(mag, den) % 16);
    proof {
        lemma_sector_by_sign(mag, den);
    }
    let index: u64 = if angle.is_negative() {
        (16 - around) % 16
    } else {
        around
    };
    Direction::from_sector(index as u8)
}

} // verus!
