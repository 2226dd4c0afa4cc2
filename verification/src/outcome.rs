//! What becomes of each point of a source, as the settings have it, and which settings
//! have no say in it.

use crate::grid::law_every_kth_row_and_column;
use crate::grid::place_of;
use crate::grid::stride_for;
use crate::grid::SourceCell;
use crate::pipeline::pipeline_for;
use crate::pipeline::Pipeline;
use crate::pipeline::PointCloudFormat;
use crate::pipeline::ThinningMethod;
use crate::record::CoordinateState;
use crate::run::cube_at;
use crate::run::kept;
use crate::run::law_as_many_points_as_cubes;
use crate::run::law_first_in_voxel_passes;
use crate::run::law_met_cubes_are_the_offered;
use crate::run::law_points_offer_their_own_cube;
use crate::run::law_thinning_again_changes_nothing;
use crate::run::offered;
use crate::run::passed;
use crate::run::passes_at;
use crate::run::seen_after;
use crate::run::PointOffer;
use crate::voxel::VoxelKey;
use vstd::prelude::*;

verus! {

/// A source: the formats on both sides, whether some scan has a grid, and of each point
/// its cell, where there is a grid, and what is known of its position.
pub struct Source {
    pub input: PointCloudFormat,
    pub output: PointCloudFormat,
    pub is_structured: bool,
    pub cells: Seq<SourceCell>,
    pub states: Seq<CoordinateState>,
}

/// The settings of a run. The size of the cubes counts by the cube that it puts each
/// point into, while thinning is on.
pub struct Choice {
    pub method: ThinningMethod,
    pub use_thinning: bool,
    pub requested_stride: usize,
    pub cubes: Seq<Option<VoxelKey>>,
}

/// What becomes of a point.
pub enum Fate {
    /// It is left out.
    Dropped,
    /// It is written, without a place in a grid.
    Written,
    /// It is written at this row and column of the new grid.
    Placed(int, int),
}

/// The pipeline that the settings lead to.
pub open spec fn pipeline_of(source: Source, choice: Choice) -> Pipeline {
    pipeline_for(source.input, source.output, source.is_structured, choice.method)
}

/// What the points of a source offer, one by one.
pub open spec fn offers_of(source: Source, choice: Choice) -> Seq<PointOffer> {
    Seq::new(source.states.len(), |i: int| offered(source.states[i], choice.cubes[i]))
}

/// What becomes of the point at position `i`.
pub open spec fn fate(source: Source, choice: Choice, i: int) -> Fate {
    if pipeline_of(source, choice) == Pipeline::StructuredE57 {
        match place_of(stride_for(choice.use_thinning, choice.requested_stride), source.cells[i]) {
            Some((row, column)) => Fate::Placed(row, column),
            None => Fate::Dropped,
        }
    } else if passes_at(offers_of(source, choice), i) {
        Fate::Written
    } else {
        Fate::Dropped
    }
}

/// Where the grid is decimated, the size of the cubes changes nothing.
pub proof fn law_cubes_do_not_matter_to_a_grid(
    source: Source,
    choice: Choice,
    cubes: Seq<Option<VoxelKey>>,
    i: int,
)
    requires
        pipeline_of(source, choice) == Pipeline::StructuredE57,
    ensures
        fate(source, Choice { cubes, ..choice }, i) == fate(source, choice, i),
{
}

/// Where the grid is not decimated, the stride changes nothing.
pub proof fn law_stride_matters_to_a_grid_alone(
    source: Source,
    choice: Choice,
    requested_stride: usize,
    i: int,
)
    requires
        pipeline_of(source, choice) != Pipeline::StructuredE57,
    ensures
        fate(source, Choice { requested_stride, ..choice }, i) == fate(source, choice, i),
{
    assert(offers_of(source, Choice { requested_stride, ..choice }) =~= offers_of(source, choice));
}

/// With LAS on either side, or without any grid, the method changes nothing.
pub proof fn law_method_matters_to_structured_files_alone(
    source: Source,
    choice: Choice,
    method: ThinningMethod,
    i: int,
)
    requires
        source.input == PointCloudFormat::Las || source.output == PointCloudFormat::Las
            || !source.is_structured,
    ensures
        fate(source, Choice { method, ..choice }, i) == fate(source, choice, i),
        pipeline_of(source, Choice { method, ..choice }) == pipeline_of(source, choice),
{
    assert(offers_of(source, Choice { method, ..choice }) =~= offers_of(source, choice));
}

/// Without thinning and without a grid, exactly the points whose position is known are
/// written.
pub proof fn law_without_thinning_valid_points_stay(source: Source, choice: Choice, i: int)
    requires
        pipeline_of(source, choice) != Pipeline::StructuredE57,
        0 <= i < source.states.len(),
        choice.cubes[i] is None,
    ensures
        fate(source, choice, i) == if source.states[i] == CoordinateState::Valid {
            Fate::Written
        } else {
            Fate::Dropped
        },
{
}

/// Without thinning, or with a stride of one or none, every cell of a grid is written,
/// whatever is known of its position, at its distance from the origin.
pub proof fn law_without_thinning_every_cell_stays(source: Source, choice: Choice, i: int)
    requires
        pipeline_of(source, choice) == Pipeline::StructuredE57,
        !choice.use_thinning || choice.requested_stride <= 1,
    ensures
        fate(source, choice, i) == Fate::Placed(
            source.cells[i].row - source.cells[i].origin.row,
            source.cells[i].column - source.cells[i].origin.column,
        ),
{
    law_every_kth_row_and_column(
        1,
        source.cells[i].origin,
        source.cells[i].row as int,
        source.cells[i].column as int,
    );
}

/// With thinning on, a point is written exactly if its position is known and no point
/// before it with a known position has the same cube.
pub proof fn law_first_point_of_each_cube_stays(source: Source, choice: Choice, i: int)
    requires
        pipeline_of(source, choice) != Pipeline::StructuredE57,
        0 <= i < source.states.len(),
        forall|j: int| 0 <= j <= i ==> (#[trigger] choice.cubes[j]) is Some,
    ensures
        fate(source, choice, i) == Fate::Written <==> source.states[i] == CoordinateState::Valid
            && forall|j: int|
            0 <= j < i && source.states[j] == CoordinateState::Valid ==> (#[trigger] choice.cubes[j])
                != choice.cubes[i],
        fate(source, choice, i) == Fate::Written || fate(source, choice, i) == Fate::Dropped,
{
    let offers = offers_of(source, choice);
    assert(choice.cubes[i] is Some);
    if source.states[i] == CoordinateState::Valid {
        law_points_offer_their_own_cube(
            source.states[i],
            choice.cubes[i],
            source.states[i],
            choice.cubes[i],
        );
        law_first_in_voxel_passes(offers, i);
        assert(cube_at(offers, i) == choice.cubes[i]);
        if forall|j: int| 0 <= j < i ==> #[trigger] cube_at(offers, j) != cube_at(offers, i) {
            assert forall|j: int|
                0 <= j < i && source.states[j] == CoordinateState::Valid implies (
            #[trigger] choice.cubes[j]) != choice.cubes[i] by {
                assert(cube_at(offers, j) == choice.cubes[j]);
            }
        }
        if forall|j: int|
            0 <= j < i && source.states[j] == CoordinateState::Valid ==> (#[trigger] choice.cubes[j])
                != choice.cubes[i] {
            assert forall|j: int| 0 <= j < i implies #[trigger] cube_at(offers, j) != cube_at(
                offers,
                i,
            ) by {
                assert(choice.cubes[j] is Some);
                if source.states[j] == CoordinateState::Valid {
                    assert(cube_at(offers, j) == choice.cubes[j]);
                }
            }
        }
    }
}

/// The cubes of the valid points of a source.
pub open spec fn cubes_of_valid(source: Source, choice: Choice) -> Set<VoxelKey> {
    Set::new(
        |key: VoxelKey|
            exists|i: int|
                0 <= i < source.states.len() && source.states[i] == CoordinateState::Valid && (
                #[trigger] choice.cubes[i]) == Some(key),
    )
}

/// With thinning on, as many points are written as there are different cubes among the
/// valid points of the source.
pub proof fn law_as_many_points_as_cubes_of_valid_points(source: Source, choice: Choice)
    requires
        forall|i: int| 0 <= i < source.states.len() ==> (#[trigger] choice.cubes[i]) is Some,
    ensures
        cubes_of_valid(source, choice).finite(),
        passed(offers_of(source, choice)) == cubes_of_valid(source, choice).len(),
        kept(offers_of(source, choice)).len() == cubes_of_valid(source, choice).len(),
{
    let offers = offers_of(source, choice);
    assert forall|i: int| 0 <= i < offers.len() implies !(#[trigger] offers[i] is Plain) by {
        assert(choice.cubes[i] is Some);
    }
    law_as_many_points_as_cubes(offers);
    law_thinning_again_changes_nothing(offers);
    assert forall|key: VoxelKey|
        seen_after(offers).contains(key) <==> cubes_of_valid(source, choice).contains(key) by {
        law_met_cubes_are_the_offered(offers, key);
        if seen_after(offers).contains(key) {
            let i = choose|i: int| 0 <= i < offers.len() && cube_at(offers, i) == Some(key);
            assert(choice.cubes[i] is Some);
            assert(choice.cubes[i] == Some(key));
        }
        if cubes_of_valid(source, choice).contains(key) {
            let i = choose|i: int|
                0 <= i < source.states.len() && source.states[i] == CoordinateState::Valid && (
                #[trigger] choice.cubes[i]) == Some(key);
            assert(cube_at(offers, i) == Some(key));
        }
    }
    assert(seen_after(offers) =~= cubes_of_valid(source, choice));
}

} // verus!
