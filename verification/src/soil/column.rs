//! The mathematical model of a soil column: what its queries return.

use vstd::prelude::*;
use vstd::arithmetic::div_mod::lemma_fundamental_div_mod;
use crate::error::Error;
use crate::fixed::lemma_floor_div_between;
use crate::fixed::mul_floor;
use crate::profile::interpolation::eval_spec;
use crate::profile::point::Point;
use crate::soil::layer::SoilLayer;
use crate::soil::layer::MAX_DEPTH;
use crate::soil::model::lemma_no_increment_no_strain;
use crate::soil::model::stress_in_range;

verus! {

/// The sum of the thicknesses of the layers.
pub open spec fn total_thickness(layers: Seq<SoilLayer>) -> int
    decreases layers.len(),
{
    if layers.len() == 0 {
        0
    } else {
        total_thickness(layers.drop_last()) + layers.last().thickness
    }
}

/// Every layer is valid.
pub open spec fn layers_valid(layers: Seq<SoilLayer>) -> bool {
    forall|i: int| 0 <= i < layers.len() ==> (#[trigger] layers[i]).valid()
}

/// The layers make a column: each is valid, and together they are no
/// thicker than a column may be.
pub open spec fn column_valid(layers: Seq<SoilLayer>) -> bool {
    &&& layers_valid(layers)
    &&& total_thickness(layers) <= MAX_DEPTH
}

/// The weight of the soil above `depth`, measured from the top of the
/// first layer: each layer that ends above `depth` with its whole
/// thickness, the layer that holds `depth` with the part above it. `None`
/// where the layers end above `depth`.
pub open spec fn stress_above(layers: Seq<SoilLayer>, depth: int) -> Option<int>
    decreases layers.len(),
{
    if depth <= 0 {
        Some(0)
    } else if layers.len() == 0 {
        None
    } else if layers.first().thickness < depth {
        match stress_above(layers.drop_first(), depth - layers.first().thickness) {
            Some(below) => Some(
                mul_floor(
                    layers.first().thickness as int,
                    layers.first().soil_model.unit_weight_spec(),
                ) + below,
            ),
            None => None,
        }
    } else {
        Some(mul_floor(depth, layers.first().soil_model.unit_weight_spec()))
    }
}

/// The index of the first layer whose lower boundary is not above
/// `depth`, measured from the top of the first layer. `None` where the
/// layers end above `depth`.
pub open spec fn layer_index_at(layers: Seq<SoilLayer>, depth: int) -> Option<int>
    decreases layers.len(),
{
    if layers.len() == 0 {
        None
    } else if layers.first().thickness >= depth {
        Some(0)
    } else {
        match layer_index_at(layers.drop_first(), depth - layers.first().thickness) {
            Some(i) => Some(i + 1),
            None => None,
        }
    }
}

/// A soil column as a value: its layers from the surface down, the samples
/// of its pore pressure, and the bedrock depth where one was set by hand.
pub struct SoilColumn {
    pub layers: Seq<SoilLayer>,
    pub pore_pressure: Seq<Point>,
    pub manual_bedrock_depth: Option<i64>,
}

impl SoilColumn {
    /// The depth set by hand, or else the thickness of all layers.
    pub open spec fn depth_to_bedrock(self) -> int {
        match self.manual_bedrock_depth {
            Some(depth) => depth as int,
            None => total_thickness(self.layers),
        }
    }

    /// The depth lies between the surface and the bedrock.
    pub open spec fn in_range(self, depth: int) -> bool {
        0 <= depth <= self.depth_to_bedrock()
    }

    /// The weight of the soil above `depth`.
    pub open spec fn total_stress(self, depth: int) -> Result<int, Error> {
        if !self.in_range(depth) {
            Err(Error::DepthOutOfRange)
        } else {
            match stress_above(self.layers, depth) {
                Some(stress) => Ok(stress),
                None => Err(Error::InternalInconsistency),
            }
        }
    }

    /// The total stress less the pore pressure at `depth`.
    pub open spec fn effective_stress(self, depth: int) -> Result<int, Error> {
        match self.total_stress(depth) {
            Ok(total) => match eval_spec(self.pore_pressure, depth) {
                Some(pressure) => if i64::MIN <= total - pressure <= i64::MAX {
                    Ok(total - pressure)
                } else {
                    Err(Error::Overflow)
                },
                None => Err(Error::EmptyOrInsufficientProfile),
            },
            Err(e) => Err(e),
        }
    }

    /// The index of the layer that is active at `depth`.
    pub open spec fn soil_layer(self, depth: int) -> Result<int, Error> {
        if !self.in_range(depth) {
            Err(Error::DepthOutOfRange)
        } else {
            match layer_index_at(self.layers, depth) {
                Some(i) => Ok(i),
                None => Err(Error::InternalInconsistency),
            }
        }
    }

    /// The height of one of `samples` equal slices of the column, from the
    /// surface to the bedrock.
    pub open spec fn step(self, samples: int) -> int {
        self.depth_to_bedrock() / samples
    }

    /// The depth at which the `k`-th sample is taken: the middle of the
    /// `k`-th slice.
    pub open spec fn sample_depth(self, samples: int, k: int) -> int {
        k * self.step(samples) + self.step(samples) / 2
    }

    /// The strain at `depth` when the pore pressure changes to that of
    /// `drawdown`: the active layer's answer to the in-situ effective
    /// stress and the drop in pore pressure.
    pub open spec fn strain_at_depth(self, drawdown: Seq<Point>, depth: int) -> Result<
        int,
        Error,
    > {
        match self.effective_stress(depth) {
            Ok(p0) => match eval_spec(drawdown, depth) {
                Some(after) => {
                    let pd = eval_spec(self.pore_pressure, depth).unwrap() - after;
                    if !stress_in_range(p0) || !stress_in_range(pd) {
                        Err(Error::Overflow)
                    } else {
                        match self.soil_layer(depth) {
                            Ok(i) => self.layers[i].soil_model.strain_spec(p0, pd),
                            Err(e) => Err(e),
                        }
                    }
                },
                None => Err(Error::EmptyOrInsufficientProfile),
            },
            Err(e) => Err(e),
        }
    }

    /// The sum of the strains at the first `k` samples, or the failure of
    /// the first sample that has one.
    pub open spec fn strain_sum(self, drawdown: Seq<Point>, samples: int, k: nat) -> Result<
        int,
        Error,
    >
        decreases k,
    {
        if k == 0 {
            Ok(0)
        } else {
            match self.strain_sum(drawdown, samples, (k - 1) as nat) {
                Ok(sum) => match self.strain_at_depth(
                    drawdown,
                    self.sample_depth(samples, k - 1),
                ) {
                    Ok(strain) => Ok(sum + strain),
                    Err(e) => Err(e),
                },
                Err(e) => Err(e),
            }
        }
    }

    /// The settlement of the column when its pore pressure changes to that
    /// of `drawdown`: the strains at the middle of `samples` slices, each
    /// weighted with the height of a slice.
    pub open spec fn settlement(self, drawdown: Seq<Point>, samples: int) -> Result<int, Error> {
        match self.strain_sum(drawdown, samples, samples as nat) {
            Ok(sum) => if i64::MIN <= mul_floor(sum, self.step(samples)) <= i64::MAX {
                Ok(mul_floor(sum, self.step(samples)))
            } else {
                Err(Error::Overflow)
            },
            Err(e) => Err(e),
        }
    }
}

/// The layers above any layer are together no thicker than the column.
pub proof fn lemma_thickness_monotone(layers: Seq<SoilLayer>, i: int)
    requires
        layers_valid(layers),
        0 <= i <= layers.len(),
    ensures
        0 <= total_thickness(layers.take(i)) <= total_thickness(layers),
    decreases layers.len(),
{
    if i == layers.len() {
        assert(layers.take(i) == layers);
        if layers.len() > 0 {
            assert(layers.drop_last() == layers.take(i - 1));
            assert(layers[i - 1].valid());
            lemma_thickness_monotone(layers.drop_last(), i - 1);
            assert(layers.drop_last().take(i - 1) == layers.drop_last());
        }
    } else {
        let front = layers.drop_last();
        assert(layers_valid(front)) by {
            assert forall|j: int| 0 <= j < front.len() implies (#[trigger] front[j]).valid() by {
                assert(front[j] == layers[j]);
            }
        }
        lemma_thickness_monotone(front, i);
        assert(front.take(i) == layers.take(i));
        assert(layers[layers.len() - 1].valid());
    }
}

/// A failure in the settlement integral is final: once a sample has
/// failed, every longer sum of strains fails in the same way.
pub proof fn lemma_strain_failure_stays(
    column: SoilColumn,
    drawdown: Seq<Point>,
    samples: int,
    from: nat,
    to: nat,
)
    requires
        from <= to,
        column.strain_sum(drawdown, samples, from) is Err,
    ensures
        column.strain_sum(drawdown, samples, to) == column.strain_sum(
            drawdown,
            samples,
            from,
        ),
    decreases to - from,
{
    if from < to {
        lemma_strain_failure_stays(column, drawdown, samples, from, (to - 1) as nat);
    }
}

/// The slices fill the column: together they are as high as the column
/// but for less than a millionth each, and the middle of each lies between
/// the surface and the bedrock.
pub proof fn lemma_slices_within(bedrock: int, samples: int, k: int)
    requires
        0 <= bedrock,
        0 <= k < samples,
    ensures
        0 <= bedrock / samples <= bedrock,
        (bedrock / samples) * samples <= bedrock < (bedrock / samples) * samples + samples,
        0 <= k * (bedrock / samples) <= k * (bedrock / samples) + (bedrock / samples) / 2
            <= bedrock,
{
    let step = bedrock / samples;
    let r = bedrock % samples;
    lemma_fundamental_div_mod(bedrock, samples);
    lemma_floor_div_between(bedrock, samples);
    lemma_floor_div_between(step, 2);
    assert(step * samples <= bedrock < step * samples + samples) by (nonlinear_arith)
        requires
            bedrock == samples * step + r,
            0 <= r < samples,
    ;
    assert(0 <= k * step && k * step + step <= step * samples) by (nonlinear_arith)
        requires
            0 <= step,
            0 <= k < samples,
    ;
}

/// Under a strain that is the same at every sample, the settlement is that
/// strain over the height of all slices together.
pub proof fn lemma_uniform_strain_settlement(
    column: SoilColumn,
    drawdown: Seq<Point>,
    samples: int,
    strain: int,
)
    requires
        samples >= 1,
        forall|k: int|
            0 <= k < samples ==> column.strain_at_depth(
                drawdown,
                #[trigger] column.sample_depth(samples, k),
            ) == Ok::<int, Error>(strain),
    ensures
        column.strain_sum(drawdown, samples, samples as nat) == Ok::<int, Error>(samples * strain),
        i64::MIN <= mul_floor(samples * strain, column.step(samples)) <= i64::MAX
            ==> column.settlement(drawdown, samples) == Ok::<int, Error>(
            mul_floor(samples * strain, column.step(samples)),
        ),
{
    lemma_uniform_strain_sum(column, drawdown, samples, strain, samples as nat);
}

proof fn lemma_uniform_strain_sum(
    column: SoilColumn,
    drawdown: Seq<Point>,
    samples: int,
    strain: int,
    k: nat,
)
    requires
        k <= samples,
        forall|j: int|
            0 <= j < samples ==> column.strain_at_depth(
                drawdown,
                #[trigger] column.sample_depth(samples, j),
            ) == Ok::<int, Error>(strain),
    ensures
        column.strain_sum(drawdown, samples, k) == Ok::<int, Error>(k * strain),
    decreases k,
{
    if k > 0 {
        lemma_uniform_strain_sum(column, drawdown, samples, strain, (k - 1) as nat);
        assert(column.strain_at_depth(drawdown, column.sample_depth(samples, k - 1)) == Ok::<
            int,
            Error,
        >(strain));
        let before = (k - 1) as nat;
        assert(before * strain + strain == k * strain) by (nonlinear_arith)
            requires
                before == k - 1,
        ;
    } else {
        assert(k * strain == 0) by (nonlinear_arith)
            requires
                k == 0,
        ;
    }
}

/// Where the pore pressure does not change, the column does not settle:
/// with a drawdown profile that reads as the in-situ profile at every
/// depth between the surface and the bedrock, the settlement is zero
/// wherever it is defined.
pub proof fn lemma_no_drawdown_no_settlement(column: SoilColumn, drawdown: Seq<Point>, samples: int)
    requires
        forall|x: int|
            0 <= x <= column.depth_to_bedrock() ==> eval_spec(drawdown, x) == eval_spec(
                column.pore_pressure,
                x,
            ),
    ensures
        column.settlement(drawdown, samples) is Ok ==> column.settlement(drawdown, samples) == Ok::<
            int,
            Error,
        >(0),
{
    lemma_no_drawdown_no_sum(column, drawdown, samples, samples as nat);
    assert(mul_floor(0, column.step(samples)) == 0);
}

proof fn lemma_no_drawdown_no_sum(column: SoilColumn, drawdown: Seq<Point>, samples: int, k: nat)
    requires
        forall|x: int|
            0 <= x <= column.depth_to_bedrock() ==> eval_spec(drawdown, x) == eval_spec(
                column.pore_pressure,
                x,
            ),
    ensures
        column.strain_sum(drawdown, samples, k) is Ok ==> column.strain_sum(
            drawdown,
            samples,
            k,
        ) == Ok::<int, Error>(0),
    decreases k,
{
    if k > 0 {
        lemma_no_drawdown_no_sum(column, drawdown, samples, (k - 1) as nat);
        let depth = column.sample_depth(samples, k - 1);
        if column.strain_sum(drawdown, samples, k) is Ok {
            let p0 = column.effective_stress(depth)->Ok_0;
            let i = column.soil_layer(depth)->Ok_0;
            assert(eval_spec(drawdown, depth) == eval_spec(column.pore_pressure, depth));
            lemma_no_increment_no_strain(column.layers[i].soil_model, p0);
        }
    }
}

} // verus!
