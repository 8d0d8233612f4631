//! The two angles of the rotator, in hundredths of a degree.
use vstd::prelude::*;

verus! {

/// Hundredths of a degree between the horizon and the zenith.
pub const ZENITH: u16 = 9000;

/// An azimuth in hundredths of a degree.
#[derive(Clone, Copy, Debug, PartialEq, Eq, Structural)]
pub struct AzAngle {
    pub centi: u16,
}

/// An elevation above the horizon in hundredths of a degree.
#[derive(Clone, Copy, Debug, PartialEq, Eq, Structural)]
pub struct ElAngle {
    pub centi: u16,
}

/// `a / b` rounded to the nearest whole number, and to the even one of two.
pub open spec fn nearest_even(a: nat, b: nat) -> nat {
    let q = a / b;
    let r = a % b;
    if 2 * r < b || (2 * r == b && q % 2 == 0) {
        q
    } else {
        q + 1
    }
}

/// The smallest significand of 24 bits, in hundredths.
pub const FULL_SIGNIFICAND: u64 = 838_860_800;

/// The power of two that brings hundredths of a degree to a full significand.
pub open spec fn significand_unit(centi: nat) -> nat
    decreases 2 * FULL_SIGNIFICAND - centi,
{
    if centi == 0 || centi >= FULL_SIGNIFICAND {
        1
    } else {
        2 * significand_unit(2 * centi)
    }
}

/// An angle with one decimal, in tenths of a degree. The angle is first taken as the
/// single-precision number nearest to it, which decides where two tenths are equally near.
pub open spec fn tenths_of(centi: u16) -> nat {
    let unit = significand_unit(centi as nat);
    nearest_even(10 * nearest_even(centi as nat * unit, 100), unit)
}

/// Divides and rounds to the nearest whole number, and to the even one of two.
fn divide_to_nearest(a: u64, b: u64) -> (r: u64)
    requires
        0 < b,
        a < u64::MAX,
    ensures
        r == nearest_even(a as nat, b as nat),
{
    let q: u64 = a / b;
    let r: u64 = a % b;
    proof {
        assert(q <= a) by (nonlinear_arith)
            requires
                q == a / b,
                0 < b,
        ;
    }
    if r < b - r || (r == b - r && q % 2 == 0) {
        q
    } else {
        q + 1
    }
}

proof fn lemma_nearest_even_is_near(a: nat, b: nat)
    requires
        0 < b,
    ensures
        2 * a - b <= 2 * (nearest_even(a, b) * b) <= 2 * a + b,
{
    let q = a / b;
    assert(a == q * b + a % b) by (nonlinear_arith)
        requires
            q == a / b,
            0 < b,
    ;
    assert((q + 1) * b == q * b + b) by (nonlinear_arith);
    vstd::arithmetic::div_mod::lemma_mod_bound(a as int, b as int);
}

proof fn lemma_significand_unit(centi: nat)
    requires
        0 < centi < 2 * FULL_SIGNIFICAND,
    ensures
        0 < significand_unit(centi),
        FULL_SIGNIFICAND <= centi * significand_unit(centi) < 2 * FULL_SIGNIFICAND,
    decreases 2 * FULL_SIGNIFICAND - centi,
{
    let unit = significand_unit(centi);
    if centi < FULL_SIGNIFICAND {
        lemma_significand_unit(2 * centi);
        let half = significand_unit(2 * centi);
        assert(centi * (2 * half) == (2 * centi) * half) by (nonlinear_arith);
    } else {
        assert(centi * 1 == centi);
    }
}

/// An angle with one decimal differs from the angle by no more than half a tenth.
pub proof fn one_decimal_is_nearest(centi: u16)
    ensures
        centi - 5 <= 10 * tenths_of(centi) <= centi + 5,
{
    let c = centi as nat;
    let u = significand_unit(c);
    if c == 0 {
        assert(nearest_even(0, 100) == 0 && nearest_even(0, 1) == 0);
    } else {
        lemma_significand_unit(c);
        let m = nearest_even(c * u, 100);
        let t = nearest_even(10 * m, u);
        lemma_nearest_even_is_near(c * u, 100);
        lemma_nearest_even_is_near(10 * m, u);
        assert(u >= 12800) by (nonlinear_arith)
            requires
                0 < c <= 65535,
                c * u >= 838_860_800,
        ;
        assert(10 * t <= c + 5) by (nonlinear_arith)
            requires
                2 * (t * u) <= 20 * m + u,
                200 * m <= 2 * (c * u) + 100,
                u >= 12800,
        ;
        assert(c - 5 <= 10 * t) by (nonlinear_arith)
            requires
                20 * m - u <= 2 * (t * u),
                2 * (c * u) - 100 <= 200 * m,
                u >= 12800,
        ;
    }
}

/// An angle in whole tenths of a degree is given as it is.
pub proof fn whole_tenths_are_kept(tenths: u16)
    requires
        10 * tenths <= u16::MAX,
    ensures
        tenths_of((10 * tenths) as u16) == tenths,
{
    one_decimal_is_nearest((10 * tenths) as u16);
}

/// An angle of hundredths of a degree with one decimal, in tenths.
pub fn one_decimal(centi: u16) -> (r: u16)
    ensures
        r == tenths_of(centi),
{
    let mut scaled: u64 = centi as u64;
    let mut unit: u64 = 1;
    while scaled != 0 && scaled < FULL_SIGNIFICAND
        invariant
            scaled == centi * unit,
            scaled < 2 * FULL_SIGNIFICAND,
            1 <= unit,
            scaled == 0 ==> unit == 1,
            scaled > 0 ==> unit <= scaled,
            unit * significand_unit(scaled as nat) == significand_unit(centi as nat),
        decreases 2 * FULL_SIGNIFICAND - scaled,
    {
        proof {
            let half = significand_unit(2 * scaled as nat);
            assert(unit * (2 * half) == (2 * unit) * half) by (nonlinear_arith);
            assert(centi * (2 * unit) == 2 * (centi * unit)) by (nonlinear_arith);
        }
        scaled = 2 * scaled;
        unit = 2 * unit;
    }
    proof {
        assert(unit * 1 == unit);
        one_decimal_is_nearest(centi);
        lemma_nearest_even_is_near(scaled as nat, 100);
    }
    let significand: u64 = divide_to_nearest(scaled, 100);
    divide_to_nearest(10 * significand, unit) as u16
}

impl ElAngle {
    /// The angle from the zenith, in hundredths of a degree: none past it.
    pub open spec fn from_zenith_spec(self) -> u16 {
        if self.centi <= ZENITH {
            (ZENITH - self.centi) as u16
        } else {
            0
        }
    }

    /// The angle from the zenith, in hundredths of a degree: none past it.
    pub fn from_zenith(&self) -> (r: u16)
        ensures
            r == self.from_zenith_spec(),
    {
        if self.centi <= ZENITH {
            ZENITH - self.centi
        } else {
            0
        }
    }

    /// An elevation lies between the horizon and the zenith.
    pub open spec fn wf(self) -> bool {
        self.centi <= ZENITH
    }

    /// The elevation of `centi` hundredths of a degree, if it is not past the zenith.
    pub fn new(centi: u16) -> (r: Option<ElAngle>)
        ensures
            r == (if centi <= ZENITH {
                Some(ElAngle { centi })
            } else {
                None
            }),
    {
        if centi <= ZENITH {
            Some(ElAngle { centi })
        } else {
            None
        }
    }
}

/// An elevation and its angle from the zenith make up 90 degrees; past the zenith the angle
/// is zero.
pub proof fn zenith_angle_complements_the_elevation(el: ElAngle)
    ensures
        el.centi <= 9000 ==> el.centi + el.from_zenith_spec() == 9000,
        el.centi > 9000 ==> el.from_zenith_spec() == 0,
{
}

} // verus!
