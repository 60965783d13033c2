//! Constitutive laws: from a stress increment to a strain.

use vstd::prelude::*;
use vstd::arithmetic::div_mod::lemma_fundamental_div_mod;
use crate::decimal::decimal_exp;
use crate::decimal::decimal_ln;
use crate::decimal::decimal_powi;
use crate::decimal::exp_micro;
use crate::decimal::ln_micro;
use crate::decimal::powi_micro;
use crate::error::Error;
use crate::fixed::div_floor;
use crate::fixed::fixed_div;
use crate::fixed::fixed_mul;
use crate::fixed::floor_div;
use crate::fixed::lemma_div_floor_bound;
use crate::fixed::lemma_floor_div_between;
use crate::fixed::lemma_floor_div_bound;
use crate::fixed::lemma_floor_div_within;
use crate::fixed::lemma_mul_floor_bound;
use crate::fixed::lemma_product_bound;
use crate::fixed::lemma_weighted_mean_bound;
use crate::fixed::mul_floor;
use crate::fixed::wide_product;
use crate::fixed::SCALE;

verus! {

/// Stress increments below this, 0.001, count as none.
pub const EPSILON: i64 = 1_000;

/// Largest magnitude of a stress, a pressure or a modulus that the models
/// take: four million.
pub const MAX_STRESS: i64 = 4_000_000_000_000;

/// Largest magnitude of a dimensionless parameter: ten thousand.
pub const MAX_RATIO: i64 = 10_000_000_000;

/// Largest magnitude of a unit weight: one hundred.
pub const MAX_UNIT_WEIGHT: i64 = 100_000_000;

/// Largest magnitude of a secant modulus that a model yields.
pub const MAX_MODULUS: i64 = 320_000_000_000_000_000;

/// Largest magnitude of a strain that a model yields.
pub const MAX_STRAIN: i64 = 4_000_000_000_000_000_000;

/// The stress is one that the models take.
pub open spec fn stress_in_range(p: int) -> bool {
    -MAX_STRESS <= p <= MAX_STRESS
}

/// The strain under a stress increment `pd` at a secant modulus.
pub open spec fn strain_at(modulus: int, pd: int) -> Result<int, Error> {
    if modulus == 0 {
        Err(Error::ZeroModulus)
    } else {
        Ok(div_floor(pd, modulus))
    }
}

/// Clay with a stiff overconsolidated and a softer, stress-dependent
/// normally consolidated range.
#[derive(Debug, Clone, Copy)]
#[allow(non_snake_case)]
pub struct Clay {
    pub unit_weight: i64,
    pub over_consolidation_ratio: i64,
    /// Modulus of the overconsolidated range.
    pub M: i64,
    /// Modulus number of the normally consolidated range.
    pub m: i64,
    /// Reference pressure.
    pub p_ref: i64,
}

impl Default for Clay {
    fn default() -> (clay: Self)
        ensures
            clay == (Clay {
                unit_weight: 19_000_000,
                over_consolidation_ratio: 1_000_000,
                M: 5_000_000_000,
                m: 20_000_000,
                p_ref: 0,
            }),
            clay.valid(),
    {
        Self {
            unit_weight: 19_000_000,
            over_consolidation_ratio: 1_000_000,
            M: 5_000_000_000,
            m: 20_000_000,
            p_ref: 0,
        }
    }
}

impl Clay {
    /// Every parameter is small enough for the arithmetic of the model.
    pub open spec fn valid(&self) -> bool {
        &&& -MAX_UNIT_WEIGHT <= self.unit_weight <= MAX_UNIT_WEIGHT
        &&& -MAX_RATIO <= self.over_consolidation_ratio <= MAX_RATIO
        &&& -MAX_STRESS <= self.M <= MAX_STRESS
        &&& -MAX_RATIO <= self.m <= MAX_RATIO
        &&& -MAX_STRESS <= self.p_ref <= MAX_STRESS
    }

    /// Preconsolidation pressure at the in-situ stress `p_0`.
    pub open spec fn pc_spec(&self, p_0: int) -> int {
        mul_floor(self.over_consolidation_ratio as int, p_0)
    }

    /// Modulus of the normally consolidated range over the path from `p0`
    /// to `p0 + pd`, taken at its midpoint.
    pub open spec fn normalconsolidated_spec(&self, p0: int, pd: int) -> int {
        mul_floor(self.m as int, p0 + pd / 2 - self.p_ref)
    }

    /// Secant modulus over the path from `p0` to `p0 + pd`.
    pub open spec fn modulus_spec(&self, p0: int, pd: int) -> int {
        let pc = self.pc_spec(p0);
        if pd < EPSILON {
            self.M as int
        } else if p0 + pd < pc {
            self.M as int
        } else if p0 > pc {
            self.normalconsolidated_spec(p0, pd)
        } else {
            let w1 = pc - p0;
            let w2 = p0 + pd - pc;
            (w1 * self.M + w2 * self.normalconsolidated_spec(pc, w2)) / pd
        }
    }

    pub fn is_valid(&self) -> (valid: bool)
        ensures
            valid == self.valid(),
    {
        -MAX_UNIT_WEIGHT <= self.unit_weight && self.unit_weight <= MAX_UNIT_WEIGHT && -MAX_RATIO
            <= self.over_consolidation_ratio && self.over_consolidation_ratio <= MAX_RATIO
            && -MAX_STRESS <= self.M && self.M <= MAX_STRESS && -MAX_RATIO <= self.m && self.m
            <= MAX_RATIO && -MAX_STRESS <= self.p_ref && self.p_ref <= MAX_STRESS
    }

    pub fn unit_weight(&self) -> (weight: i64)
        ensures
            weight == self.unit_weight,
    {
        self.unit_weight
    }

    /// Preconsolidation pressure at the in-situ stress `p_0`.
    pub fn pc(&self, p_0: i64) -> (pc: i64)
        requires
            self.valid(),
            stress_in_range(p_0 as int),
        ensures
            pc == self.pc_spec(p_0 as int),
    {
        proof {
            lemma_mul_floor_bound(
                self.over_consolidation_ratio as int,
                p_0 as int,
                MAX_RATIO as int,
                MAX_STRESS as int,
                40_000_000_000_000_000,
            );
        }
        fixed_mul(self.over_consolidation_ratio, p_0) as i64
    }

    pub fn stiffness_overconsolidated(&self) -> (stiffness: i64)
        ensures
            stiffness == self.M,
    {
        self.M
    }

    /// Modulus of the normally consolidated range over the path from `p0`
    /// to `p0 + pd`.
    pub fn stiffness_normalconsolidated(&self, p0: i64, pd: i64) -> (stiffness: i64)
        requires
            self.valid(),
            -4 * MAX_STRESS <= p0 <= 4 * MAX_STRESS,
            -4 * MAX_STRESS <= pd <= 4 * MAX_STRESS,
        ensures
            stiffness == self.normalconsolidated_spec(p0 as int, pd as int),
            -MAX_MODULUS <= stiffness <= MAX_MODULUS,
    {
        let half = floor_div(pd as i128, 2);
        let mean: i64 = (p0 as i128 + half - self.p_ref as i128) as i64;
        proof {
            lemma_mul_floor_bound(
                self.m as int,
                mean as int,
                MAX_RATIO as int,
                8 * MAX_STRESS,
                MAX_MODULUS as int,
            );
        }
        fixed_mul(self.m, mean) as i64
    }

    /// Secant modulus over the path from `p0` to `p0 + pd`: that of the
    /// overconsolidated range while the path stays below the
    /// preconsolidation pressure or hardly moves, that of the normally
    /// consolidated range where it starts above, and the mean of the two by
    /// their shares of the increment where it crosses.
    pub fn elastic_modulus(&self, p0: i64, pd: i64) -> (modulus: i64)
        requires
            self.valid(),
            stress_in_range(p0 as int),
            stress_in_range(pd as int),
        ensures
            modulus == self.modulus_spec(p0 as int, pd as int),
            pd < EPSILON ==> modulus == self.M,
            -MAX_MODULUS <= modulus <= MAX_MODULUS,
    {
        let pc = self.pc(p0);
        if pd < EPSILON {
            return self.M;
        }
        if p0 + pd < pc {
            self.stiffness_overconsolidated()
        } else if p0 > pc {
            self.stiffness_normalconsolidated(p0, pd)
        } else {
            let w1 = pc - p0;
            let w2 = p0 + pd - pc;
            let a = wide_product(w1, self.stiffness_overconsolidated());
            let softer = self.stiffness_normalconsolidated(pc, w2);
            let b = wide_product(w2, softer);
            proof {
                lemma_weighted_mean_bound(
                    w1 as int,
                    w2 as int,
                    self.M as int,
                    softer as int,
                    MAX_MODULUS as int,
                );
                lemma_product_bound(
                    w1 as int,
                    self.M as int,
                    MAX_STRESS as int,
                    MAX_MODULUS as int,
                );
                lemma_product_bound(
                    w2 as int,
                    softer as int,
                    MAX_STRESS as int,
                    MAX_MODULUS as int,
                );
            }
            floor_div(a + b, pd as i128) as i64
        }
    }

    /// Strain under the stress increment `pd` from the in-situ stress `p0`.
    pub fn compute_strain(&self, p0: i64, pd: i64) -> (strain: Result<i64, Error>)
        requires
            self.valid(),
            stress_in_range(p0 as int),
            stress_in_range(pd as int),
        ensures
            match strain {
                Ok(s) => strain_at(self.modulus_spec(p0 as int, pd as int), pd as int) == Ok::<
                    int,
                    Error,
                >(s as int),
                Err(e) => strain_at(self.modulus_spec(p0 as int, pd as int), pd as int) == Err::<
                    int,
                    Error,
                >(e),
            },
            strain matches Ok(s) ==> -MAX_STRAIN <= s <= MAX_STRAIN,
    {
        strain_under(self.elastic_modulus(p0, pd), pd)
    }
}

/// Strain under the stress increment `pd` at a secant modulus; undefined at
/// a modulus of zero.
pub fn strain_under(modulus: i64, pd: i64) -> (strain: Result<i64, Error>)
    requires
        stress_in_range(pd as int),
    ensures
        match strain {
            Ok(s) => strain_at(modulus as int, pd as int) == Ok::<int, Error>(s as int),
            Err(e) => strain_at(modulus as int, pd as int) == Err::<int, Error>(e),
        },
        strain matches Ok(s) ==> -MAX_STRAIN <= s <= MAX_STRAIN,
{
    if modulus == 0 {
        Err(Error::ZeroModulus)
    } else {
        proof {
            lemma_div_floor_bound(pd as int, modulus as int, MAX_STRESS as int);
        }
        Ok(fixed_div(pd, modulus) as i64)
    }
}

/// Number of sub-steps over which the power law is averaged.
pub const LOAD_STEPS: usize = 10;

/// Reference stress of the power law: 100.
pub const SIGMA_REF: i64 = 100_000_000;

/// The exponent times a logarithm, where that is a quantity.
pub open spec fn scaled_exponent_spec(exponent: int, ln: Option<i64>) -> Option<i64> {
    match ln {
        Some(l) => if i64::MIN <= mul_floor(exponent, l as int) <= i64::MAX {
            Some(mul_floor(exponent, l as int) as i64)
        } else {
            None
        },
        None => None,
    }
}

/// `base` to the power of `exponent`: one for the exponent zero, the whole
/// power for a whole exponent, and else the exponential of the exponent
/// times the logarithm, which only a positive base has.
pub open spec fn power_spec(base: i64, exponent: i64) -> Option<i64> {
    if exponent == 0 {
        Some(SCALE)
    } else if exponent as int % SCALE as int == 0 {
        decimal_powi(base, (exponent as int / SCALE as int) as i64)
    } else if base <= 0 {
        None
    } else {
        match scaled_exponent_spec(exponent as int, decimal_ln(base)) {
            Some(e) => decimal_exp(e),
            None => None,
        }
    }
}

/// The exponent times the logarithm that was found for a base, if any and
/// if the product is a quantity.
pub fn scaled_exponent(exponent: i64, ln: Option<i64>) -> (scaled: Option<i64>)
    ensures
        scaled == scaled_exponent_spec(exponent as int, ln),
{
    match ln {
        Some(l) => {
            let e = fixed_mul(exponent, l);
            if e < i64::MIN as i128 || e > i64::MAX as i128 {
                None
            } else {
                Some(e as i64)
            }
        },
        None => None,
    }
}

/// `base` to the power of `exponent`.
pub fn power(base: i64, exponent: i64) -> (value: Option<i64>)
    ensures
        value == power_spec(base, exponent),
{
    if exponent == 0 {
        return Some(SCALE);
    }
    let whole = floor_div(exponent as i128, SCALE as i128);
    proof {
        lemma_fundamental_div_mod(exponent as int, SCALE as int);
        lemma_floor_div_between(exponent as int, SCALE as int);
    }
    if whole * (SCALE as i128) == exponent as i128 {
        powi_micro(base, whole as i64)
    } else if base <= 0 {
        None
    } else {
        match scaled_exponent(exponent, ln_micro(base)) {
            Some(e) => exp_micro(e),
            None => None,
        }
    }
}

/// The stress in the middle of sub-step `i`, where the path from `p0` by
/// `pd` is cut into equal sub-steps.
pub open spec fn load_step_stress_spec(p0: int, pd: int, i: int) -> int {
    p0 + ((pd / (LOAD_STEPS as int)) * (2 * i + 1)) / 2
}

/// Soil whose stiffness follows a power law of the stress.
#[derive(Debug, Clone, Copy)]
pub struct General {
    pub unit_weight: i64,
    /// Reference pressure.
    pub p_ref: i64,
    /// Modulus number.
    pub m: i64,
    /// Stress exponent.
    pub a: i64,
}

impl Default for General {
    fn default() -> (general: Self)
        ensures
            general == (General {
                unit_weight: 19_000_000,
                p_ref: 0,
                m: 20_000_000,
                a: 1_000_000,
            }),
            general.valid(),
    {
        Self { unit_weight: 19_000_000, m: 20_000_000, a: 1_000_000, p_ref: 0 }
    }
}

impl General {
    /// Every parameter is small enough for the arithmetic of the model.
    pub open spec fn valid(&self) -> bool {
        &&& -MAX_UNIT_WEIGHT <= self.unit_weight <= MAX_UNIT_WEIGHT
        &&& -MAX_STRESS <= self.p_ref <= MAX_STRESS
        &&& -MAX_RATIO <= self.m <= MAX_RATIO
        &&& -MAX_RATIO <= self.a <= MAX_RATIO
    }

    /// The tangent stiffness at a stress whose ratio to the reference
    /// stress, raised to the power `1 - a`, is `power`.
    pub open spec fn stiffness_spec(&self, power: int) -> int {
        mul_floor(mul_floor(self.m as int, SIGMA_REF as int), power)
    }

    /// The tangent stiffness in sub-step `i`.
    pub open spec fn step_stiffness_spec(&self, p0: int, pd: int, i: int) -> Result<int, Error> {
        match power_spec(
            div_floor(load_step_stress_spec(p0, pd, i), SIGMA_REF as int) as i64,
            (SCALE - self.a) as i64,
        ) {
            Some(power) => Ok(self.stiffness_spec(power as int)),
            None => Err(Error::UndefinedPower),
        }
    }

    /// The sum of the tangent stiffness over the first `n` sub-steps.
    pub open spec fn stiffness_sum_spec(&self, p0: int, pd: int, n: nat) -> Result<int, Error>
        decreases n,
    {
        if n == 0 {
            Ok(0)
        } else {
            match self.stiffness_sum_spec(p0, pd, (n - 1) as nat) {
                Ok(sum) => match self.step_stiffness_spec(p0, pd, n - 1) {
                    Ok(stiffness) => Ok(sum + stiffness),
                    Err(e) => Err(e),
                },
                Err(e) => Err(e),
            }
        }
    }

    /// Secant modulus over the path from `p0` by `pd`: the mean of the
    /// tangent stiffness over the sub-steps.
    pub open spec fn modulus_spec(&self, p0: int, pd: int) -> Result<int, Error> {
        match self.stiffness_sum_spec(p0, pd, LOAD_STEPS as nat) {
            Ok(sum) => if i64::MIN <= sum / (LOAD_STEPS as int) <= i64::MAX {
                Ok(sum / (LOAD_STEPS as int))
            } else {
                Err(Error::Overflow)
            },
            Err(e) => Err(e),
        }
    }

    pub fn is_valid(&self) -> (valid: bool)
        ensures
            valid == self.valid(),
    {
        -MAX_UNIT_WEIGHT <= self.unit_weight && self.unit_weight <= MAX_UNIT_WEIGHT && -MAX_STRESS
            <= self.p_ref && self.p_ref <= MAX_STRESS && -MAX_RATIO <= self.m && self.m
            <= MAX_RATIO && -MAX_RATIO <= self.a && self.a <= MAX_RATIO
    }

    pub fn unit_weight(&self) -> (weight: i64)
        ensures
            weight == self.unit_weight,
    {
        self.unit_weight
    }

    /// The stress in the middle of sub-step `i` on the path from `p0` by
    /// `pd`.
    pub fn load_step_stress(p0: i64, pd: i64, i: usize) -> (stress: i64)
        requires
            stress_in_range(p0 as int),
            stress_in_range(pd as int),
            i < LOAD_STEPS,
        ensures
            stress == load_step_stress_spec(p0 as int, pd as int, i as int),
            -12 * MAX_STRESS <= stress <= 12 * MAX_STRESS,
    {
        let dp = floor_div(pd as i128, LOAD_STEPS as i128);
        proof {
            lemma_floor_div_bound(pd as int, LOAD_STEPS as int, MAX_STRESS as int);
            lemma_product_bound(dp as int, 2 * i + 1, MAX_STRESS as int, 19);
            lemma_floor_div_bound(dp * (2 * i + 1), 2, MAX_STRESS * 19);
        }
        let offset = floor_div(dp * (2 * (i as i128) + 1), 2);
        (p0 as i128 + offset) as i64
    }

    /// The tangent stiffness at a stress whose ratio to the reference
    /// stress, raised to the power `1 - a`, is `power`.
    pub fn stiffness_at(&self, power: i64) -> (stiffness: i128)
        requires
            self.valid(),
        ensures
            stiffness == self.stiffness_spec(power as int),
            -9_223_372_036_854_775_808_000_000 <= stiffness <= 9_223_372_036_854_775_808_000_000,
    {
        proof {
            lemma_mul_floor_bound(
                self.m as int,
                SIGMA_REF as int,
                MAX_RATIO as int,
                SIGMA_REF as int,
                1_000_000_000_000,
            );
            lemma_mul_floor_bound(
                mul_floor(self.m as int, SIGMA_REF as int),
                power as int,
                1_000_000_000_000,
                0x8000_0000_0000_0000,
                9_223_372_036_854_775_808_000_000,
            );
        }
        let reference = fixed_mul(self.m, SIGMA_REF) as i64;
        fixed_mul(reference, power)
    }

    /// Secant modulus over the path from `p0` by `pd`.
    pub fn elastic_modulus(&self, p0: i64, pd: i64) -> (modulus: Result<i64, Error>)
        requires
            self.valid(),
            stress_in_range(p0 as int),
            stress_in_range(pd as int),
        ensures
            match modulus {
                Ok(v) => self.modulus_spec(p0 as int, pd as int) == Ok::<int, Error>(v as int),
                Err(e) => self.modulus_spec(p0 as int, pd as int) == Err::<int, Error>(e),
            },
    {
        let mut sum: i128 = 0;
        let mut i: usize = 0;
        while i < LOAD_STEPS
            invariant
                i <= LOAD_STEPS,
                self.valid(),
                stress_in_range(p0 as int),
                stress_in_range(pd as int),
                self.stiffness_sum_spec(p0 as int, pd as int, i as nat) == Ok::<int, Error>(
                    sum as int,
                ),
                -9_223_372_036_854_775_808_000_000 * i <= sum <= 9_223_372_036_854_775_808_000_000
                    * i,
            decreases LOAD_STEPS - i,
        {
            let sigma_m = General::load_step_stress(p0, pd, i);
            proof {
                lemma_floor_div_within(sigma_m * SCALE, SIGMA_REF as int, 12 * MAX_STRESS);
            }
            let ratio = fixed_div(sigma_m, SIGMA_REF) as i64;
            let stiffness = match power(ratio, SCALE - self.a) {
                Some(value) => self.stiffness_at(value),
                None => {
                    proof {
                        lemma_stiffness_sum_fails(*self, p0 as int, pd as int, i as nat);
                    }
                    return Err(Error::UndefinedPower);
                },
            };
            sum = sum + stiffness;
            i = i + 1;
        }
        let mean = floor_div(sum, LOAD_STEPS as i128);
        if mean < i64::MIN as i128 || mean > i64::MAX as i128 {
            Err(Error::Overflow)
        } else {
            Ok(mean as i64)
        }
    }

    /// Strain under the stress increment `pd` from the in-situ stress `p0`.
    pub fn compute_strain(&self, p0: i64, pd: i64) -> (strain: Result<i64, Error>)
        requires
            self.valid(),
            stress_in_range(p0 as int),
            stress_in_range(pd as int),
        ensures
            match strain {
                Ok(s) => general_strain(*self, p0 as int, pd as int) == Ok::<int, Error>(s as int),
                Err(e) => general_strain(*self, p0 as int, pd as int) == Err::<int, Error>(e),
            },
            strain matches Ok(s) ==> -MAX_STRAIN <= s <= MAX_STRAIN,
    {
        match self.elastic_modulus(p0, pd) {
            Ok(modulus) => strain_under(modulus, pd),
            Err(e) => Err(e),
        }
    }
}

/// The strain of a power-law soil under the increment `pd` from `p0`.
pub open spec fn general_strain(general: General, p0: int, pd: int) -> Result<int, Error> {
    match general.modulus_spec(p0, pd) {
        Ok(modulus) => strain_at(modulus, pd),
        Err(e) => Err(e),
    }
}

/// Once a sub-step has no stiffness, no later sum has a value.
proof fn lemma_stiffness_sum_fails(general: General, p0: int, pd: int, i: nat)
    requires
        i < LOAD_STEPS,
        general.step_stiffness_spec(p0, pd, i as int) is Err,
        general.stiffness_sum_spec(p0, pd, i) is Ok,
    ensures
        general.stiffness_sum_spec(p0, pd, LOAD_STEPS as nat) == Err::<int, Error>(
            general.step_stiffness_spec(p0, pd, i as int)->Err_0,
        ),
        general.modulus_spec(p0, pd) == Err::<int, Error>(
            general.step_stiffness_spec(p0, pd, i as int)->Err_0,
        ),
{
    lemma_stiffness_sum_stays_failed(general, p0, pd, (i + 1) as nat, LOAD_STEPS as nat);
}

proof fn lemma_stiffness_sum_stays_failed(general: General, p0: int, pd: int, from: nat, to: nat)
    requires
        from <= to,
        general.stiffness_sum_spec(p0, pd, from) is Err,
    ensures
        general.stiffness_sum_spec(p0, pd, to) == general.stiffness_sum_spec(p0, pd, from),
    decreases to - from,
{
    if from < to {
        lemma_stiffness_sum_stays_failed(general, p0, pd, from, (to - 1) as nat);
    }
}

/// The constitutive law of a layer.
#[derive(Debug, Clone, Copy)]
pub enum SoilModel {
    Clay(Clay),
    General(General),
}

impl SoilModel {
    /// Every parameter is small enough for the arithmetic of the model.
    pub open spec fn valid(&self) -> bool {
        match self {
            SoilModel::Clay(clay) => clay.valid(),
            SoilModel::General(general) => general.valid(),
        }
    }

    /// Weight per volume.
    pub open spec fn unit_weight_spec(&self) -> int {
        match self {
            SoilModel::Clay(clay) => clay.unit_weight as int,
            SoilModel::General(general) => general.unit_weight as int,
        }
    }

    /// Secant modulus over the path from `p0` by `pd`.
    pub open spec fn modulus_spec(&self, p0: int, pd: int) -> Result<int, Error> {
        match self {
            SoilModel::Clay(clay) => Ok(clay.modulus_spec(p0, pd)),
            SoilModel::General(general) => general.modulus_spec(p0, pd),
        }
    }

    /// Strain under the increment `pd` from `p0`: the increment over the
    /// secant modulus.
    pub open spec fn strain_spec(&self, p0: int, pd: int) -> Result<int, Error> {
        match self.modulus_spec(p0, pd) {
            Ok(modulus) => strain_at(modulus, pd),
            Err(e) => Err(e),
        }
    }

    pub fn is_valid(&self) -> (valid: bool)
        ensures
            valid == self.valid(),
    {
        match self {
            SoilModel::Clay(clay) => clay.is_valid(),
            SoilModel::General(general) => general.is_valid(),
        }
    }

    pub fn unit_weight(&self) -> (weight: i64)
        ensures
            weight == self.unit_weight_spec(),
    {
        match self {
            SoilModel::Clay(clay) => clay.unit_weight(),
            SoilModel::General(general) => general.unit_weight(),
        }
    }

    /// Secant modulus over the path from `p0` by `pd`.
    pub fn elastic_modulus(&self, p0: i64, pd: i64) -> (modulus: Result<i64, Error>)
        requires
            self.valid(),
            stress_in_range(p0 as int),
            stress_in_range(pd as int),
        ensures
            match modulus {
                Ok(v) => self.modulus_spec(p0 as int, pd as int) == Ok::<int, Error>(v as int),
                Err(e) => self.modulus_spec(p0 as int, pd as int) == Err::<int, Error>(e),
            },
    {
        match self {
            SoilModel::Clay(clay) => Ok(clay.elastic_modulus(p0, pd)),
            SoilModel::General(general) => general.elastic_modulus(p0, pd),
        }
    }

    /// Strain under the stress increment `pd` from the in-situ stress `p0`.
    pub fn compute_strain(&self, p0: i64, pd: i64) -> (strain: Result<i64, Error>)
        requires
            self.valid(),
            stress_in_range(p0 as int),
            stress_in_range(pd as int),
        ensures
            match strain {
                Ok(s) => self.strain_spec(p0 as int, pd as int) == Ok::<int, Error>(s as int),
                Err(e) => self.strain_spec(p0 as int, pd as int) == Err::<int, Error>(e),
            },
            strain matches Ok(s) ==> -MAX_STRAIN <= s <= MAX_STRAIN,
    {
        match self {
            SoilModel::Clay(clay) => clay.compute_strain(p0, pd),
            SoilModel::General(general) => general.compute_strain(p0, pd),
        }
    }
}

/// Without a stress increment there is no strain, whatever the model,
/// wherever the strain is defined at all.
pub proof fn lemma_no_increment_no_strain(model: SoilModel, p0: int)
    ensures
        model.strain_spec(p0, 0) is Ok ==> model.strain_spec(p0, 0) == Ok::<int, Error>(0),
{
}

} // verus!
