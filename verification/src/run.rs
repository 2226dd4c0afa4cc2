//! The counters of a run over a stream of points, and when progress is reported.

use crate::pipeline::Pipeline;
use crate::pipeline::PointCloudFormat;
use crate::record::CoordinateState;
use crate::voxel::VoxelFilter;
use crate::voxel::VoxelKey;
use vstd::prelude::*;

verus! {

/// How far a run has come.
#[derive(Clone, Copy, Debug, PartialEq, Eq, Structural)]
pub enum ProgressMark {
    /// A fixed percentage.
    Percent(u32),
    /// `span` percent times the share of `processed` in `total`.
    Share { processed: usize, total: usize, span: u32 },
}

/// The distance between two progress reports: a twentieth of the points, but no less
/// than `gap`.
pub open spec fn report_step(total: usize, gap: usize) -> int {
    if total / 20 >= gap {
        (total / 20) as int
    } else {
        gap as int
    }
}

/// Whether progress is reported after `processed` of `total` points.
pub open spec fn report_due(total: usize, processed: usize, gap: usize) -> bool {
    total > 0 && processed as int % report_step(total, gap) == 0
}

/// The progress report after `processed` of `total` points, if one is due.
pub open spec fn report(pipeline: Pipeline, total: usize, processed: usize) -> Option<
    ProgressMark,
> {
    if report_due(total, processed, pipeline.report_gap()) {
        Some(ProgressMark::Share { processed, total, span: pipeline.span() })
    } else {
        None
    }
}

/// The progress report after `processed` of `total` points, if one is due.
pub fn progress_report(pipeline: Pipeline, total: usize, processed: usize) -> (mark: Option<
    ProgressMark,
>)
    ensures
        mark == report(pipeline, total, processed),
{
    if total == 0 {
        return None;
    }
    let gap: usize = pipeline.progress_gap();
    let part: usize = total / 20;
    let step: usize = if part >= gap { part } else { gap };
    if processed % step == 0 {
        Some(ProgressMark::Share { processed, total, span: pipeline.progress_span() })
    } else {
        None
    }
}

/// What the stream offers for one point.
#[derive(Clone, Copy, Debug, PartialEq, Eq)]
pub enum PointOffer {
    /// A point without a valid position.
    Invalid,
    /// A point, while thinning is off.
    Plain,
    /// A point in a cube, while thinning is on.
    Voxel(VoxelKey),
}

/// What a point offers: nothing unless its position is known, else its cube where there
/// is one. A point of which only the direction is known has no position.
pub open spec fn offered(state: CoordinateState, cube: Option<VoxelKey>) -> PointOffer {
    if state != CoordinateState::Valid {
        PointOffer::Invalid
    } else {
        match cube {
            Some(key) => PointOffer::Voxel(key),
            None => PointOffer::Plain,
        }
    }
}

/// What a point offers. The cube is there while thinning is on.
pub fn offer_for(state: CoordinateState, cube: Option<VoxelKey>) -> (offer: PointOffer)
    ensures
        offer == offered(state, cube),
        offer is Invalid <==> state != CoordinateState::Valid,
        offer is Plain <==> state == CoordinateState::Valid && cube is None,
        forall|key: VoxelKey|
            offer == PointOffer::Voxel(key) <==> state == CoordinateState::Valid && cube == Some(
                key,
            ),
{
    match (state, cube) {
        (CoordinateState::Valid, Some(key)) => PointOffer::Voxel(key),
        (CoordinateState::Valid, None) => PointOffer::Plain,
        _ => PointOffer::Invalid,
    }
}

/// Whether an offered point is written, given the cubes met before.
pub open spec fn passes(seen: Set<VoxelKey>, offer: PointOffer) -> bool {
    match offer {
        PointOffer::Invalid => false,
        PointOffer::Plain => true,
        PointOffer::Voxel(key) => !seen.contains(key),
    }
}

/// The cubes met after one more offer.
pub open spec fn seen_with(seen: Set<VoxelKey>, offer: PointOffer) -> Set<VoxelKey> {
    match offer {
        PointOffer::Voxel(key) => seen.insert(key),
        _ => seen,
    }
}

/// The cubes met after a stream of offers.
pub open spec fn seen_after(offers: Seq<PointOffer>) -> Set<VoxelKey>
    decreases offers.len(),
{
    if offers.len() == 0 {
        Set::empty()
    } else {
        seen_with(seen_after(offers.drop_last()), offers.last())
    }
}

/// Whether the point at position `i` of a stream is written.
pub open spec fn passes_at(offers: Seq<PointOffer>, i: int) -> bool {
    passes(seen_after(offers.take(i)), offers[i])
}

/// How many points of a stream are written.
pub open spec fn passed(offers: Seq<PointOffer>) -> nat
    decreases offers.len(),
{
    if offers.len() == 0 {
        0
    } else {
        passed(offers.drop_last()) + if passes(seen_after(offers.drop_last()), offers.last()) {
            1nat
        } else {
            0nat
        }
    }
}

/// A run over a stream of points: what was offered, what was written.
pub struct PointRun {
    pipeline: Pipeline,
    total: usize,
    filter: VoxelFilter,
    processed: usize,
    written: usize,
    offers: Ghost<Seq<PointOffer>>,
}

impl PointRun {
    /// The pipeline that the run belongs to.
    pub closed spec fn spec_pipeline(&self) -> Pipeline {
        self.pipeline
    }

    /// The announced number of points.
    pub closed spec fn spec_total(&self) -> usize {
        self.total
    }

    /// Everything offered so far, in order.
    pub closed spec fn offers(&self) -> Seq<PointOffer> {
        self.offers@
    }

    /// How many points were written so far.
    pub closed spec fn spec_written(&self) -> usize {
        self.written
    }

    /// The counters agree with the stream, and nothing was written that was not let
    /// through.
    pub closed spec fn well_formed(&self) -> bool {
        &&& self.processed == self.offers@.len()
        &&& self.filter.well_formed()
        &&& self.filter@ == seen_after(self.offers@)
        &&& self.written <= passed(self.offers@)
    }

    /// A run over a stream announced to hold `total` points.
    pub fn new(pipeline: Pipeline, total: usize) -> (run: PointRun)
        ensures
            run.well_formed(),
            run.spec_pipeline() == pipeline,
            run.spec_total() == total,
            run.offers() == Seq::<PointOffer>::empty(),
            run.spec_written() == 0,
    {
        PointRun {
            pipeline,
            total,
            filter: VoxelFilter::new(),
            processed: 0,
            written: 0,
            offers: Ghost(Seq::empty()),
        }
    }

    /// The number of points offered so far.
    pub fn processed(&self) -> (count: usize)
        requires
            self.well_formed(),
        ensures
            count == self.offers().len(),
    {
        self.processed
    }

    /// The number of points written so far.
    pub fn written(&self) -> (count: usize)
        ensures
            count == self.spec_written(),
    {
        self.written
    }

    /// Takes the next point of the stream and tells whether it is to be written.
    pub fn offer(&mut self, offer: PointOffer) -> (keep: bool)
        requires
            old(self).well_formed(),
            old(self).offers().len() < usize::MAX,
        ensures
            final(self).well_formed(),
            keep == passes(seen_after(old(self).offers()), offer),
            final(self).offers() == old(self).offers().push(offer),
            final(self).spec_written() == old(self).spec_written(),
            final(self).spec_total() == old(self).spec_total(),
            final(self).spec_pipeline() == old(self).spec_pipeline(),
    {
        proof {
            assert(self.offers@.push(offer).drop_last() =~= self.offers@);
        }
        self.processed = self.processed + 1;
        self.offers = Ghost(self.offers@.push(offer));
        match offer {
            PointOffer::Invalid => false,
            PointOffer::Plain => true,
            PointOffer::Voxel(key) => self.filter.pass(&key),
        }
    }

    /// Counts the point last let through as written, and tells what progress is
    /// reported.
    pub fn wrote(&mut self) -> (mark: Option<ProgressMark>)
        requires
            old(self).well_formed(),
            old(self).spec_written() < passed(old(self).offers()),
        ensures
            final(self).well_formed(),
            final(self).spec_written() == old(self).spec_written() + 1,
            mark == report(
                old(self).spec_pipeline(),
                old(self).spec_total(),
                old(self).offers().len() as usize,
            ),
            final(self).offers() == old(self).offers(),
            final(self).spec_total() == old(self).spec_total(),
            final(self).spec_pipeline() == old(self).spec_pipeline(),
    {
        proof {
            lemma_passed_bound(self.offers@);
        }
        self.written = self.written + 1;
        progress_report(self.pipeline, self.total, self.processed)
    }
}

/// No more points are written than are offered.
proof fn lemma_passed_bound(offers: Seq<PointOffer>)
    ensures
        passed(offers) <= offers.len(),
    decreases offers.len(),
{
    if offers.len() > 0 {
        lemma_passed_bound(offers.drop_last());
    }
}

/// The cube at position `i` of a stream, if one is offered there.
pub open spec fn cube_at(offers: Seq<PointOffer>, i: int) -> Option<VoxelKey> {
    match offers[i] {
        PointOffer::Voxel(key) => Some(key),
        _ => None,
    }
}

/// The cubes met are those of the points offered.
pub proof fn law_met_cubes_are_the_offered(offers: Seq<PointOffer>, key: VoxelKey)
    ensures
        seen_after(offers).contains(key) <==> exists|i: int|
            0 <= i < offers.len() && cube_at(offers, i) == Some(key),
    decreases offers.len(),
{
    if offers.len() > 0 {
        let rest = offers.drop_last();
        law_met_cubes_are_the_offered(rest, key);
        if seen_after(rest).contains(key) {
            let i = choose|i: int| 0 <= i < rest.len() && cube_at(rest, i) == Some(key);
            assert(cube_at(offers, i) == Some(key));
        }
        if cube_at(offers, offers.len() - 1) == Some(key) {
            assert(seen_after(offers).contains(key));
        }
        if exists|i: int| 0 <= i < offers.len() && cube_at(offers, i) == Some(key) {
            let i = choose|i: int| 0 <= i < offers.len() && cube_at(offers, i) == Some(key);
            if i < rest.len() {
                assert(cube_at(rest, i) == Some(key));
            }
        }
    }
}

/// A point in a cube is written exactly if no point before it fell into the same cube.
pub proof fn law_first_in_voxel_passes(offers: Seq<PointOffer>, i: int)
    requires
        0 <= i < offers.len(),
        offers[i] is Voxel,
    ensures
        passes_at(offers, i) <==> forall|j: int|
            0 <= j < i ==> #[trigger] cube_at(offers, j) != cube_at(offers, i),
{
    let before = offers.take(i);
    let key = cube_at(offers, i)->0;
    law_met_cubes_are_the_offered(before, key);
    if seen_after(before).contains(key) {
        let j = choose|j: int| 0 <= j < before.len() && cube_at(before, j) == Some(key);
        assert(cube_at(offers, j) == Some(key));
    } else {
        assert forall|j: int| 0 <= j < i implies #[trigger] cube_at(offers, j) != cube_at(
            offers,
            i,
        ) by {
            assert(cube_at(before, j) == cube_at(offers, j));
        }
    }
}

/// At most one point of each cube is written: two written points never share a cube.
pub proof fn law_one_point_per_voxel(offers: Seq<PointOffer>, i: int, j: int)
    requires
        0 <= i < j < offers.len(),
        offers[i] is Voxel,
        offers[j] is Voxel,
        passes_at(offers, i),
        passes_at(offers, j),
    ensures
        offers[i]->Voxel_0 != offers[j]->Voxel_0,
{
    law_first_in_voxel_passes(offers, j);
    assert(cube_at(offers, i) != cube_at(offers, j));
}

/// A point of each cube is written, its first one.
pub proof fn law_each_voxel_keeps_a_point(offers: Seq<PointOffer>, i: int)
    requires
        0 <= i < offers.len(),
        offers[i] is Voxel,
    ensures
        exists|j: int| 0 <= j <= i && offers[j] == offers[i] && #[trigger] passes_at(offers, j),
    decreases i,
{
    law_first_in_voxel_passes(offers, i);
    if !passes_at(offers, i) {
        let j = choose|j: int| 0 <= j < i && #[trigger] cube_at(offers, j) == cube_at(offers, i);
        assert(offers[j] == offers[i]);
        law_each_voxel_keeps_a_point(offers, j);
        let first = choose|f: int|
            0 <= f <= j && offers[f] == offers[j] && #[trigger] passes_at(offers, f);
        assert(offers[first] == offers[i]);
    }
}

/// With thinning on, as many points are written as there are different cubes.
pub proof fn law_as_many_points_as_cubes(offers: Seq<PointOffer>)
    requires
        forall|i: int| 0 <= i < offers.len() ==> !(#[trigger] offers[i] is Plain),
    ensures
        seen_after(offers).finite(),
        passed(offers) == seen_after(offers).len(),
    decreases offers.len(),
{
    if offers.len() > 0 {
        let rest = offers.drop_last();
        assert(forall|i: int| 0 <= i < rest.len() ==> rest[i] == offers[i]);
        law_as_many_points_as_cubes(rest);
        assert(!(offers[offers.len() - 1] is Plain));
    }
}

/// Points without a valid position are never written, whatever came before.
pub proof fn law_invalid_points_are_dropped(offers: Seq<PointOffer>, i: int)
    requires
        0 <= i < offers.len(),
        offers[i] == PointOffer::Invalid,
    ensures
        !passes_at(offers, i),
{
}

/// With thinning off every point with a valid position is written.
pub proof fn law_without_thinning_all_pass(offers: Seq<PointOffer>)
    requires
        forall|i: int| 0 <= i < offers.len() ==> offers[i] == PointOffer::Plain,
    ensures
        passed(offers) == offers.len(),
    decreases offers.len(),
{
    if offers.len() > 0 {
        law_without_thinning_all_pass(offers.drop_last());
    }
}

/// The points of a stream that are written, in order.
pub open spec fn kept(offers: Seq<PointOffer>) -> Seq<PointOffer>
    decreases offers.len(),
{
    if offers.len() == 0 {
        Seq::empty()
    } else if passes(seen_after(offers.drop_last()), offers.last()) {
        kept(offers.drop_last()).push(offers.last())
    } else {
        kept(offers.drop_last())
    }
}

/// The written points meet the same cubes as the whole stream.
proof fn lemma_kept_cubes(offers: Seq<PointOffer>)
    ensures
        seen_after(kept(offers)) == seen_after(offers),
        kept(offers).len() == passed(offers),
    decreases offers.len(),
{
    if offers.len() > 0 {
        let rest = offers.drop_last();
        lemma_kept_cubes(rest);
        if passes(seen_after(rest), offers.last()) {
            assert(kept(offers).drop_last() =~= kept(rest));
        } else {
            assert(seen_after(offers) =~= seen_after(rest));
        }
    }
}

/// With thinning off the written points are those offered, all of them and in order.
pub proof fn law_without_thinning_order_stays(offers: Seq<PointOffer>)
    requires
        forall|i: int| 0 <= i < offers.len() ==> offers[i] == PointOffer::Plain,
    ensures
        kept(offers) == offers,
        passed(offers) == offers.len(),
    decreases offers.len(),
{
    law_without_thinning_all_pass(offers);
    if offers.len() > 0 {
        law_without_thinning_order_stays(offers.drop_last());
        assert(offers.drop_last().push(offers.last()) =~= offers);
    }
}

/// Thinning what was thinned removes nothing more.
pub proof fn law_thinning_again_changes_nothing(offers: Seq<PointOffer>)
    ensures
        kept(offers).len() == passed(offers),
        kept(kept(offers)) == kept(offers),
    decreases offers.len(),
{
    lemma_kept_cubes(offers);
    if offers.len() > 0 {
        let rest = offers.drop_last();
        law_thinning_again_changes_nothing(rest);
        lemma_kept_cubes(rest);
        if passes(seen_after(rest), offers.last()) {
            assert(kept(offers).drop_last() =~= kept(rest));
        }
    }
}

/// However many points there are, progress is reported at most twenty times: each
/// report falls on one of the first twenty multiples of the reporting distance.
pub proof fn law_at_most_twenty_reports(pipeline: Pipeline, total: usize, processed: usize)
    requires
        0 < processed <= total,
        report(pipeline, total, processed) is Some,
    ensures
        exists|m: int|
            1 <= m <= 20 && processed == #[trigger] (m * report_step(total, pipeline.report_gap())),
{
    let step = report_step(total, pipeline.report_gap());
    let p = processed as int;
    let m = p / step;
    assert(step >= 10_000);
    assert(total < 20 * step + 20);
    assert(p == m * step) by (nonlinear_arith)
        requires
            p % step == 0,
            m == p / step,
            step > 0,
    ;
    assert(1 <= m <= 20) by (nonlinear_arith)
        requires
            p == m * step,
            0 < p < 20 * step + 20,
            step >= 10_000,
    ;
}

/// The percentage of a mark as a fraction: its numerator and its denominator.
pub open spec fn fraction(mark: ProgressMark) -> (int, int) {
    match mark {
        ProgressMark::Percent(percent) => (percent as int, 1),
        ProgressMark::Share { processed, total, span } => (processed * span, total as int),
    }
}

/// Whether a mark is no further than another.
pub open spec fn no_further(mark: ProgressMark, other: ProgressMark) -> bool {
    fraction(mark).0 * fraction(other).1 <= fraction(other).0 * fraction(mark).1
}

/// Progress never goes back while points are read.
pub proof fn law_progress_grows(pipeline: Pipeline, total: usize, processed: usize, later: usize)
    requires
        processed <= later,
        report(pipeline, total, processed) is Some,
        report(pipeline, total, later) is Some,
    ensures
        no_further(report(pipeline, total, processed)->0, report(pipeline, total, later)->0),
{
    let span = pipeline.span();
    assert((processed * span) * total <= (later * span) * total) by (nonlinear_arith)
        requires
            processed <= later,
    ;
}

/// While no more points are read than were announced, progress stays within the span of
/// the pipeline, which leaves room for what follows the points: images are copied at 90
/// percent, and a file is completed at 98.
pub proof fn law_progress_stays_in_span(pipeline: Pipeline, total: usize, processed: usize)
    requires
        processed <= total,
        report(pipeline, total, processed) is Some,
    ensures
        no_further(report(pipeline, total, processed)->0, ProgressMark::Percent(pipeline.span())),
        pipeline.span() <= 100,
        pipeline == Pipeline::StructuredE57 ==> pipeline.span() < 90,
{
    let span = pipeline.span();
    assert((processed * span) * 1 <= span * total) by (nonlinear_arith)
        requires
            processed <= total,
    ;
}

/// Points without a known position offer nothing, whatever their cube; the others offer
/// exactly their cube. So two points offer the same cube only if it is the cube of both.
pub proof fn law_points_offer_their_own_cube(
    state: CoordinateState,
    cube: Option<VoxelKey>,
    other_state: CoordinateState,
    other_cube: Option<VoxelKey>,
)
    ensures
        offered(state, cube) is Invalid <==> state != CoordinateState::Valid,
        offered(state, cube) is Voxel <==> state == CoordinateState::Valid && cube is Some,
        offered(state, cube) is Voxel ==> cube == Some(offered(state, cube)->Voxel_0),
        offered(state, cube) is Voxel && offered(state, cube) == offered(other_state, other_cube)
            ==> cube == other_cube,
{
}

/// Progress is reported exactly at the multiples of a distance that is the larger of a
/// twentieth of the points and the least distance of the pipeline, and a report tells the
/// points read, their total and the span.
pub proof fn law_reports_fall_on_multiples(pipeline: Pipeline, total: usize, processed: usize)
    ensures
        ({
            let step: int = if total as int / 20 > pipeline.report_gap() {
                total as int / 20
            } else {
                pipeline.report_gap() as int
            };
            report(pipeline, total, processed) is Some <==> total > 0 && processed as int % step
                == 0
        }),
        report(pipeline, total, processed) matches Some(mark) ==> mark == (ProgressMark::Share {
            processed,
            total,
            span: pipeline.span(),
        }),
        pipeline.report_gap() == (if pipeline == Pipeline::StructuredE57 {
            20_000usize
        } else {
            10_000usize
        }),
        pipeline == Pipeline::StructuredE57 ==> pipeline.span() == 85,
        pipeline == Pipeline::UnstructuredE57 ==> pipeline.span() == 90,
        pipeline.writes() == PointCloudFormat::Las || pipeline.reads() == PointCloudFormat::Las
            ==> pipeline.span() == 100,
{
}

/// What passes is among the points that are kept, and so is a point of every cube that is
/// offered; no more points are kept than are offered.
pub proof fn law_every_offered_cube_is_kept(offers: Seq<PointOffer>, i: int)
    requires
        0 <= i < offers.len(),
    ensures
        passes_at(offers, i) ==> kept(offers).contains(offers[i]),
        offers[i] is Voxel ==> kept(offers).contains(offers[i]),
        kept(offers).len() <= offers.len(),
    decreases offers.len(),
{
    let rest = offers.drop_last();
    lemma_kept_cubes(offers);
    lemma_passed_bound(offers);
    if i == offers.len() - 1 {
        assert(offers.take(i) =~= rest);
        if passes(seen_after(rest), offers.last()) {
            assert(kept(offers).last() == offers[i]);
        } else if offers[i] is Voxel {
            law_met_cubes_are_the_offered(rest, offers[i]->Voxel_0);
            let j = choose|j: int| 0 <= j < rest.len() && cube_at(rest, j) == cube_at(offers, i);
            assert(rest[j] == offers[i]);
            law_every_offered_cube_is_kept(rest, j);
        }
    } else {
        law_every_offered_cube_is_kept(rest, i);
        assert(rest.take(i) =~= offers.take(i));
        assert(rest[i] == offers[i]);
        if kept(rest).contains(offers[i]) {
            let j = choose|j: int| 0 <= j < kept(rest).len() && kept(rest)[j] == offers[i];
            assert(kept(offers)[j] == offers[i]);
        }
    }
}

} // verus!
