//! The soil column as a data structure, and its queries.

use vstd::prelude::*;
use vstd::arithmetic::div_mod::lemma_fundamental_div_mod;
use crate::error::Error;
use crate::fixed::fixed_mul;
use crate::fixed::floor_div;
use crate::fixed::lemma_mul_floor_bound;
use crate::fixed::SCALE;
use crate::fixed::lemma_floor_div_between;
use crate::hydro::ProfilePorePressure;
use crate::profile::interpolation::lemma_eval_defined;
use crate::profile::profile_trait::Profile;
use crate::soil::column::column_valid;
use crate::soil::column::layer_index_at;
use crate::soil::column::layers_valid;
use crate::soil::column::lemma_slices_within;
use crate::soil::column::lemma_strain_failure_stays;
use crate::soil::column::lemma_thickness_monotone;
use crate::soil::column::stress_above;
use crate::soil::column::total_thickness;
use crate::soil::column::SoilColumn;
use crate::soil::layer::SoilLayer;
use crate::soil::layer::MAX_DEPTH;
use crate::soil::model::MAX_STRESS;
use crate::soil::model::MAX_UNIT_WEIGHT;

verus! {

/// Number of samples of the settlement integral.
pub const SETTLEMENT_SAMPLES: usize = 100;

/// Largest number of samples that the settlement integral takes.
pub const MAX_SAMPLES: usize = 1_000_000;

/// A layered soil column with its pore pressure.
#[derive(Debug)]
#[allow(clippy::module_name_repetitions)]
pub struct SoilProfile {
    soil_layers: Vec<SoilLayer>,
    pore_pressure_profile: ProfilePorePressure,
    manual_bedrock_depth: Option<i64>,
}

impl View for SoilProfile {
    type V = SoilColumn;

    closed spec fn view(&self) -> SoilColumn {
        SoilColumn {
            layers: self.soil_layers@,
            pore_pressure: self.pore_pressure_profile.samples(),
            manual_bedrock_depth: self.manual_bedrock_depth,
        }
    }
}

impl Default for SoilProfile {
    /// A column without layers, under the default pore pressure.
    fn default() -> (profile: Self)
        ensures
            profile@.layers == Seq::<SoilLayer>::empty(),
            profile@.pore_pressure == ProfilePorePressure::default_samples(),
            profile@.manual_bedrock_depth is None,
    {
        Self {
            soil_layers: Vec::new(),
            pore_pressure_profile: ProfilePorePressure::default(),
            manual_bedrock_depth: None,
        }
    }
}

/// The strains of all samples, each weighted with the height of a slice,
/// stay within the machine's widest integer.
proof fn lemma_weighted_sum_bound(sum: int, step: int, samples: int, bedrock: int)
    requires
        1 <= samples,
        -4_000_000_000_000_000_000 * samples <= sum <= 4_000_000_000_000_000_000 * samples,
        0 <= bedrock <= i64::MAX,
        step == bedrock / samples,
    ensures
        -36_893_488_147_419_103_232_000_000_000_000_000_000 <= sum * step
            <= 36_893_488_147_419_103_232_000_000_000_000_000_000,
{
    lemma_slices_within(bedrock, samples, 0);
    let weight = step * samples;
    assert(0 <= weight <= 0x8000_0000_0000_0000);
    assert(-4_000_000_000_000_000_000 * weight <= sum * step <= 4_000_000_000_000_000_000
        * weight) by (nonlinear_arith)
        requires
            weight == step * samples,
            0 <= step,
            -4_000_000_000_000_000_000 * samples <= sum <= 4_000_000_000_000_000_000 * samples,
    ;
}

/// Adds the weight above the current layer to what lies below it.
pub open spec fn stress_with(above: int, below: Option<int>) -> Option<int> {
    match below {
        Some(stress) => Some(above + stress),
        None => None,
    }
}

/// Counts a layer found further down from the top of the column.
pub open spec fn index_with(above: int, below: Option<int>) -> Option<int> {
    match below {
        Some(i) => Some(above + i),
        None => None,
    }
}

/// Whether the layers make a column: each valid, and together no thicker
/// than a column may be.
pub fn column_is_valid(soil_layers: &Vec<SoilLayer>) -> (valid: bool)
    ensures
        valid == column_valid(soil_layers@),
{
    let mut sum: i64 = 0;
    let mut i: usize = 0;
    assert(soil_layers@.take(0) == Seq::<SoilLayer>::empty());
    while i < soil_layers.len()
        invariant
            i <= soil_layers.len(),
            layers_valid(soil_layers@.take(i as int)),
            sum == total_thickness(soil_layers@.take(i as int)),
            0 <= sum <= MAX_DEPTH,
        decreases soil_layers.len() - i,
    {
        let ghost next = soil_layers@.take(i + 1);
        assert(next.drop_last() == soil_layers@.take(i as int));
        assert(next.last() == soil_layers@[i as int]);
        if !soil_layers[i].is_valid() {
            return false;
        }
        assert(layers_valid(next)) by {
            assert forall|j: int| 0 <= j < next.len() implies (#[trigger] next[j]).valid() by {
                if j < i {
                    assert(next[j] == soil_layers@.take(i as int)[j]);
                }
            }
        }
        if soil_layers[i].thickness > MAX_DEPTH - sum {
            proof {
                if layers_valid(soil_layers@) {
                    lemma_thickness_monotone(soil_layers@, i + 1);
                }
            }
            return false;
        }
        sum = sum + soil_layers[i].thickness;
        i = i + 1;
    }
    assert(soil_layers@.take(i as int) == soil_layers@);
    true
}

impl SoilProfile {
    #[verifier::type_invariant]
    spec fn is_column(self) -> bool {
        column_valid(self.soil_layers@)
    }

    /// Replaces the layers, from the surface down.
    #[must_use]
    pub fn with_soil_layers(self, soil_layers: Vec<SoilLayer>) -> (profile: Self)
        requires
            column_valid(soil_layers@),
        ensures
            profile@ == (SoilColumn { layers: soil_layers@, ..self@ }),
    {
        Self {
            soil_layers,
            pore_pressure_profile: self.pore_pressure_profile,
            manual_bedrock_depth: self.manual_bedrock_depth,
        }
    }

    /// Replaces the layers, from the surface down.
    #[must_use]
    pub fn with_soil_layer(self, soil_layers: Vec<SoilLayer>) -> (profile: Self)
        requires
            column_valid(soil_layers@),
        ensures
            profile@ == (SoilColumn { layers: soil_layers@, ..self@ }),
    {
        self.with_soil_layers(soil_layers)
    }

    /// Replaces the pore pressure.
    #[must_use]
    pub fn with_pore_pressure_profile(self, pore_pressure_profile: ProfilePorePressure) -> (profile:
        Self)
        ensures
            profile@ == (SoilColumn { pore_pressure: pore_pressure_profile.samples(), ..self@ }),
    {
        proof {
            use_type_invariant(&self);
        }
        Self {
            soil_layers: self.soil_layers,
            pore_pressure_profile,
            manual_bedrock_depth: self.manual_bedrock_depth,
        }
    }

    /// Sets the bedrock depth by hand.
    #[must_use]
    pub fn with_depth_to_bedrock(self, manual_bedrock_depth: i64) -> (profile: Self)
        ensures
            profile@ == (SoilColumn {
                manual_bedrock_depth: Some(manual_bedrock_depth),
                ..self@
            }),
    {
        proof {
            use_type_invariant(&self);
        }
        Self {
            soil_layers: self.soil_layers,
            pore_pressure_profile: self.pore_pressure_profile,
            manual_bedrock_depth: Some(manual_bedrock_depth),
        }
    }

    /// Sets the bedrock depth by hand.
    pub fn set_depth_to_bedrock(&mut self, manual_bedrock_depth: i64)
        ensures
            final(self)@ == (SoilColumn {
                manual_bedrock_depth: Some(manual_bedrock_depth),
                ..old(self)@
            }),
    {
        proof {
            use_type_invariant(&*self);
        }
        self.manual_bedrock_depth = Some(manual_bedrock_depth);
    }

    /// The depth set by hand, or else the thickness of all layers.
    #[must_use]
    pub fn depth_to_bedrock(&self) -> (depth: i64)
        ensures
            depth == self@.depth_to_bedrock(),
    {
        match self.manual_bedrock_depth {
            Some(v) => v,
            None => {
                proof {
                    use_type_invariant(self);
                }
                let mut sum: i64 = 0;
                let mut i: usize = 0;
                assert(self.soil_layers@.take(0) == Seq::<SoilLayer>::empty());
                while i < self.soil_layers.len()
                    invariant
                        i <= self.soil_layers.len(),
                        column_valid(self.soil_layers@),
                        sum == total_thickness(self.soil_layers@.take(i as int)),
                    decreases self.soil_layers.len() - i,
                {
                    proof {
                        let next = self.soil_layers@.take(i + 1);
                        assert(next.drop_last() == self.soil_layers@.take(i as int));
                        assert(next.last() == self.soil_layers@[i as int]);
                        lemma_thickness_monotone(self.soil_layers@, i as int);
                        lemma_thickness_monotone(self.soil_layers@, i + 1);
                    }
                    sum = sum + self.soil_layers[i].thickness;
                    i = i + 1;
                }
                assert(self.soil_layers@.take(i as int) == self.soil_layers@);
                sum
            },
        }
    }

    /// The weight of the soil above `depth`.
    pub fn in_situ_total_stress(&self, depth: i64) -> (stress: Result<i64, Error>)
        ensures
            match stress {
                Ok(s) => self@.total_stress(depth as int) == Ok::<int, Error>(s as int),
                Err(e) => self@.total_stress(depth as int) == Err::<int, Error>(e),
            },
            stress == Err::<i64, Error>(Error::DepthOutOfRange) <==> depth < 0 || depth
                > self@.depth_to_bedrock(),
            stress matches Ok(s) ==> -MAX_STRESS <= s <= MAX_STRESS,
    {
        if depth < 0 {
            return Err(Error::DepthOutOfRange);
        }
        if depth > self.depth_to_bedrock() {
            return Err(Error::DepthOutOfRange);
        }
        proof {
            use_type_invariant(self);
        }
        let ghost layers = self.soil_layers@;
        let mut sum: i64 = 0;
        let mut remaining: i64 = depth;
        let mut layercount: usize = 0;
        assert(layers.skip(0) == layers);
        assert(layers.take(0) == Seq::<SoilLayer>::empty());
        while remaining > 0
            invariant
                layers == self.soil_layers@,
                column_valid(layers),
                layercount <= layers.len(),
                depth <= self@.depth_to_bedrock(),
                0 <= remaining <= depth,
                depth - remaining <= total_thickness(layers.take(layercount as int)),
                -100 * (depth - remaining) <= sum <= 100 * (depth - remaining),
                stress_above(layers, depth as int) == stress_with(
                    sum as int,
                    stress_above(layers.skip(layercount as int), remaining as int),
                ),
            decreases layers.len() - layercount,
        {
            if layercount >= self.soil_layers.len() {
                return Err(Error::InternalInconsistency);
            }
            let soil_layer = &self.soil_layers[layercount];
            let weight = soil_layer.soil_model.unit_weight();
            proof {
                let rest = layers.skip(layercount as int);
                assert(rest.first() == layers[layercount as int]);
                assert(rest.drop_first() == layers.skip(layercount + 1));
                let next = layers.take(layercount + 1);
                assert(next.drop_last() == layers.take(layercount as int));
                assert(next.last() == layers[layercount as int]);
                assert(layers[layercount as int].valid());
                lemma_thickness_monotone(layers, layercount as int);
                lemma_thickness_monotone(layers, layercount + 1);
            }
            if soil_layer.thickness < remaining {
                proof {
                    lemma_mul_floor_bound(
                        soil_layer.thickness as int,
                        weight as int,
                        soil_layer.thickness as int,
                        MAX_UNIT_WEIGHT as int,
                        100 * soil_layer.thickness,
                    );
                }
                sum = sum + fixed_mul(soil_layer.thickness, weight) as i64;
                remaining = remaining - soil_layer.thickness;
            } else {
                proof {
                    lemma_mul_floor_bound(
                        remaining as int,
                        weight as int,
                        remaining as int,
                        MAX_UNIT_WEIGHT as int,
                        100 * remaining,
                    );
                }
                sum = sum + fixed_mul(remaining, weight) as i64;
                remaining = 0;
            }
            layercount = layercount + 1;
        }
        proof {
            lemma_thickness_monotone(layers, layercount as int);
        }
        Ok(sum)
    }

    /// The total stress less the pore pressure at `depth`.
    pub fn in_situ_effective_stress(&self, depth: i64) -> (stress: Result<i64, Error>)
        ensures
            match stress {
                Ok(s) => self@.effective_stress(depth as int) == Ok::<int, Error>(s as int),
                Err(e) => self@.effective_stress(depth as int) == Err::<int, Error>(e),
            },
    {
        let total_stress_at_depth = match self.in_situ_total_stress(depth) {
            Ok(sigma) => sigma,
            Err(e) => { return Err(e); },
        };
        let pore_pressure_at_depth = match self.pore_pressure_profile.eval(depth) {
            Ok(u) => u,
            Err(e) => { return Err(e); },
        };
        let effective: i128 = total_stress_at_depth as i128 - pore_pressure_at_depth as i128;
        if effective < i64::MIN as i128 || effective > i64::MAX as i128 {
            Err(Error::Overflow)
        } else {
            Ok(effective as i64)
        }
    }

    /// The layer that is active at `depth`: the first whose lower boundary
    /// is not above it.
    pub fn get_soil_layer(&self, depth: i64) -> (layer: Result<&SoilLayer, Error>)
        ensures
            match layer {
                Ok(l) => self@.soil_layer(depth as int) matches Ok(i) && 0 <= i
                    < self@.layers.len() && *l == self@.layers[i] && l.valid(),
                Err(e) => self@.soil_layer(depth as int) == Err::<int, Error>(e),
            },
            layer == Err::<&SoilLayer, Error>(Error::DepthOutOfRange) <==> depth < 0 || depth
                > self@.depth_to_bedrock(),
    {
        if depth < 0 {
            return Err(Error::DepthOutOfRange);
        }
        if depth > self.depth_to_bedrock() {
            return Err(Error::DepthOutOfRange);
        }
        proof {
            use_type_invariant(self);
        }
        let ghost layers = self.soil_layers@;
        let mut remaining: i64 = depth;
        let mut layercount: usize = 0;
        assert(layers.skip(0) == layers);
        while layercount < self.soil_layers.len()
            invariant
                layers == self.soil_layers@,
                column_valid(layers),
                layercount <= layers.len(),
                0 <= depth <= self@.depth_to_bedrock(),
                remaining <= depth,
                layer_index_at(layers, depth as int) == index_with(
                    layercount as int,
                    layer_index_at(layers.skip(layercount as int), remaining as int),
                ),
            decreases layers.len() - layercount,
        {
            let soil_layer = &self.soil_layers[layercount];
            proof {
                let rest = layers.skip(layercount as int);
                assert(rest.first() == layers[layercount as int]);
                assert(rest.drop_first() == layers.skip(layercount + 1));
                assert(layers[layercount as int].valid());
            }
            if soil_layer.thickness < remaining {
                remaining = remaining - soil_layer.thickness;
                layercount = layercount + 1;
            } else {
                return Ok(soil_layer);
            }
        }
        Err(Error::InternalInconsistency)
    }

    /// The settlement of the column when its pore pressure changes to that
    /// of `drawdown`, integrated over the standard number of samples.
    pub fn compute_settlement(&self, drawdown: &ProfilePorePressure) -> (settlement: Result<
        i64,
        Error,
    >)
        ensures
            match settlement {
                Ok(s) => self@.settlement(drawdown.samples(), SETTLEMENT_SAMPLES as int) == Ok::<
                    int,
                    Error,
                >(s as int),
                Err(e) => self@.settlement(drawdown.samples(), SETTLEMENT_SAMPLES as int) == Err::<
                    int,
                    Error,
                >(e),
            },
    {
        self.compute_settlement_with(drawdown, SETTLEMENT_SAMPLES)
    }

    /// The settlement of the column when its pore pressure changes to that
    /// of `drawdown`, integrated over `samples` samples.
    pub fn compute_settlement_with(&self, drawdown: &ProfilePorePressure, samples: usize) -> (settlement:
        Result<i64, Error>)
        requires
            1 <= samples <= MAX_SAMPLES,
        ensures
            match settlement {
                Ok(s) => self@.settlement(drawdown.samples(), samples as int) == Ok::<int, Error>(
                    s as int,
                ),
                Err(e) => self@.settlement(drawdown.samples(), samples as int) == Err::<
                    int,
                    Error,
                >(e),
            },
    {
        let ghost column = self@;
        let ghost after = drawdown.samples();
        let bedrock = self.depth_to_bedrock();
        if bedrock < 0 {
            proof {
                let n = samples as int;
                let b = bedrock as int;
                lemma_fundamental_div_mod(b, n);
                let step = column.step(n);
                let r = b % n;
                assert(step < 0) by (nonlinear_arith)
                    requires
                        b < 0,
                        n > 0,
                        b == n * step + r,
                        0 <= r,
                ;
                assert(column.sample_depth(n, 0) == step / 2);
                assert(column.strain_sum(after, n, 1) == Err::<int, Error>(
                    Error::DepthOutOfRange,
                )) by {
                    assert(column.strain_sum(after, n, 0) == Ok::<int, Error>(0));
                }
                lemma_strain_failure_stays(column, after, n, 1, samples as nat);
            }
            return Err(Error::DepthOutOfRange);
        }
        let step: i64 = bedrock / (samples as i64);
        let half: i64 = step / 2;
        proof {
            lemma_slices_within(bedrock as int, samples as int, 0);
        }
        let mut sum: i128 = 0;
        let mut k: usize = 0;
        while k < samples
            invariant
                k <= samples,
                1 <= samples <= MAX_SAMPLES,
                column == self@,
                after == drawdown.samples(),
                bedrock == column.depth_to_bedrock(),
                step == column.step(samples as int),
                0 <= step <= bedrock,
                half == step / 2,
                column.strain_sum(after, samples as int, k as nat) == Ok::<int, Error>(
                    sum as int,
                ),
                -4_000_000_000_000_000_000 * k <= sum <= 4_000_000_000_000_000_000 * k,
            decreases samples - k,
        {
            proof {
                lemma_slices_within(bedrock as int, samples as int, k as int);
            }
            let eval_depth: i64 = (k as i64) * step + half;
            assert(eval_depth == column.sample_depth(samples as int, k as int));
            let p0 = match self.in_situ_effective_stress(eval_depth) {
                Ok(v) => v,
                Err(e) => {
                    proof {
                        lemma_strain_failure_stays(
                            column,
                            after,
                            samples as int,
                            (k + 1) as nat,
                            samples as nat,
                        );
                    }
                    return Err(e);
                },
            };
            let before = match self.pore_pressure_profile.eval(eval_depth) {
                Ok(v) => v,
                Err(e) => {
                    proof {
                        lemma_eval_defined(column.pore_pressure, eval_depth as int);
                    }
                    return Err(e);
                },
            };
            let lowered = match drawdown.eval(eval_depth) {
                Ok(v) => v,
                Err(e) => {
                    proof {
                        lemma_eval_defined(after, eval_depth as int);
                        lemma_strain_failure_stays(
                            column,
                            after,
                            samples as int,
                            (k + 1) as nat,
                            samples as nat,
                        );
                    }
                    return Err(e);
                },
            };
            let pd: i128 = before as i128 - lowered as i128;
            if p0 < -MAX_STRESS || p0 > MAX_STRESS || pd < -MAX_STRESS as i128 || pd
                > MAX_STRESS as i128 {
                proof {
                    lemma_strain_failure_stays(
                        column,
                        after,
                        samples as int,
                        (k + 1) as nat,
                        samples as nat,
                    );
                }
                return Err(Error::Overflow);
            }
            let strain = match self.get_soil_layer(eval_depth) {
                Ok(layer) => match layer.soil_model.compute_strain(p0, pd as i64) {
                    Ok(v) => v,
                    Err(e) => {
                        proof {
                            lemma_strain_failure_stays(
                                column,
                                after,
                                samples as int,
                                (k + 1) as nat,
                                samples as nat,
                            );
                        }
                        return Err(e);
                    },
                },
                Err(e) => {
                    proof {
                        lemma_strain_failure_stays(
                            column,
                            after,
                            samples as int,
                            (k + 1) as nat,
                            samples as nat,
                        );
                    }
                    return Err(e);
                },
            };
            sum = sum + strain as i128;
            k = k + 1;
        }
        proof {
            lemma_weighted_sum_bound(sum as int, step as int, samples as int, bedrock as int);
        }
        let settlement = floor_div(sum * (step as i128), SCALE as i128);
        if settlement < i64::MIN as i128 || settlement > i64::MAX as i128 {
            Err(Error::Overflow)
        } else {
            Ok(settlement as i64)
        }
    }
}

} // verus!
