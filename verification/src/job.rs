//! A job from its first action to its last: what is logged, created, written and
//! completed, and in which order.
//!
//! The program around the library carries the actions out one after another and stops
//! at the first that fails. Between them it reads points and offers them to the job.

use crate::copying::image_steps;
use crate::copying::law_image_keeps_what_it_has;
use crate::copying::plan_fresh_image;
use crate::copying::plan_scan;
use crate::copying::scan_steps;
use crate::copying::step_views;
use crate::copying::CopyStep;
use crate::copying::CopyStepView;
use crate::copying::ImageMeta;
use crate::copying::ImagePlan;
use crate::copying::ScanMeta;
use crate::grid::grid_origin;
use crate::grid::in_range;
use crate::grid::law_new_index_tells_source;
use crate::grid::origin_for;
use crate::grid::place;
use crate::grid::stride_for;
use crate::grid::GridCell;
use crate::grid::GridOrigin;
use crate::grid::GridRun;
use crate::grid::SourceCell;
use crate::guid::fresh_guid;
use crate::guid::is_guid_text;
use crate::guid::law_scans_are_named_by_their_identifiers;
use crate::guid::names_scan;
use crate::guid::resolved;
use crate::guid::GuidMap;
use crate::message::line_text;
use crate::message::reduction_factor;
use crate::message::scan_line;
use crate::message::LogLine;
use crate::pipeline::Pipeline;
use crate::pipeline::PointCloudFormat;
use crate::record::fits;
use crate::record::law_color_survives_widening;
use crate::record::law_fields_follow_the_layout;
use crate::record::law_record_fits_prototype;
use crate::record::narrow;
use crate::record::only_if;
use crate::record::widened;
use crate::record::CoordinateState;
use crate::record::FieldValue;
use crate::record::RecordField;
use crate::record::RecordLayout;
use crate::record::Rgb8;
use crate::record::INDEX_MAX;
use crate::run::kept;
use crate::run::law_without_thinning_order_stays;
use crate::run::offered;
use crate::run::passed;
use crate::run::passes;
use crate::run::passes_at;
use crate::run::report;
use crate::run::seen_after;
use crate::run::PointOffer;
use crate::run::PointRun;
use crate::run::ProgressMark;
use vstd::prelude::*;

verus! {

/// Something that the program does for a job.
#[derive(Debug)]
pub enum Action {
    /// Writes a line to the log.
    Log(LogLine),
    /// Shows how far the job has come.
    Progress(ProgressMark),
    /// Logs by how much the result will be smaller, with the percentage.
    AnnounceReduction { factor: i64 },
    /// Creates the LAS file of the result.
    CreateLas,
    /// Creates the E57 file of the result.
    CreateE57 { guid: String },
    /// Begins a point cloud in the result.
    AddPointcloud { guid: String, fields: Vec<RecordField> },
    /// Carries metadata of the scan over to the point cloud.
    Carry(CopyStep),
    /// Completes the point cloud.
    FinishPointcloud,
    /// Copies the image with this index.
    CopyImage { index: usize, plan: ImagePlan },
    /// Completes the file.
    FinishFile,
}

/// An action, over character sequences.
pub enum ActionView {
    Log(Seq<char>),
    Progress(ProgressMark),
    AnnounceReduction { factor: int },
    CreateLas,
    CreateE57 { guid: Seq<char> },
    AddPointcloud { guid: Seq<char>, fields: Seq<RecordField> },
    Carry(CopyStepView),
    FinishPointcloud,
    CopyImage { index: int, guid: Seq<char>, steps: Seq<CopyStepView> },
    FinishFile,
}

impl View for Action {
    type V = ActionView;

    open spec fn view(&self) -> ActionView {
        match self {
            Action::Log(line) => ActionView::Log(line_text(*line)),
            Action::Progress(mark) => ActionView::Progress(*mark),
            Action::AnnounceReduction { factor } => ActionView::AnnounceReduction {
                factor: *factor as int,
            },
            Action::CreateLas => ActionView::CreateLas,
            Action::CreateE57 { guid } => ActionView::CreateE57 { guid: guid@ },
            Action::AddPointcloud { guid, fields } => ActionView::AddPointcloud {
                guid: guid@,
                fields: fields@,
            },
            Action::Carry(step) => ActionView::Carry(step@),
            Action::FinishPointcloud => ActionView::FinishPointcloud,
            Action::CopyImage { index, plan } => ActionView::CopyImage {
                index: *index as int,
                guid: plan.guid@,
                steps: step_views(plan.steps@),
            },
            Action::FinishFile => ActionView::FinishFile,
        }
    }
}

/// A list of actions, over character sequences.
pub open spec fn action_views(actions: Seq<Action>) -> Seq<ActionView> {
    actions.map_values(|action: Action| action@)
}

fn push_action(actions: &mut Vec<Action>, action: Action)
    ensures
        action_views(final(actions)@) == action_views(old(actions)@).push(action@),
        final(actions).len() == old(actions).len() + 1,
{
    let ghost before = actions@;
    actions.push(action);
    assert(action_views(actions@) =~= action_views(before).push(action@));
}

/// The actions that carry a scan's metadata over.
pub open spec fn carried(steps: Seq<CopyStepView>) -> Seq<ActionView> {
    steps.map_values(|step: CopyStepView| ActionView::Carry(step))
}

fn push_steps(actions: &mut Vec<Action>, steps: Vec<CopyStep>)
    ensures
        action_views(final(actions)@) == action_views(old(actions)@) + carried(step_views(steps@)),
    decreases steps.len(),
{
    let ghost before = action_views(actions@);
    let mut rest = steps;
    match rest.pop() {
        Some(last) => {
            let ghost shorter = steps@.drop_last();
            push_steps(actions, rest);
            push_action(actions, Action::Carry(last));
            assert(step_views(steps@) =~= step_views(shorter).push(steps@.last()@));
            assert(action_views(actions@) =~= before + carried(step_views(steps@)));
        },
        None => {
            assert(action_views(actions@) =~= before + carried(step_views(steps@)));
        },
    }
}

/// The images of a file are copied in order, one action for each.
pub open spec fn copies_images(
    actions: Seq<ActionView>,
    images: Seq<ImageMeta>,
    map: Map<Seq<char>, Seq<char>>,
) -> bool {
    &&& actions.len() == images.len()
    &&& forall|i: int|
        0 <= i < images.len() ==> copies_image(#[trigger] actions[i], i, images[i], map)
}

/// An image is copied under its own identifier, or a random one where it has none, with
/// what the source has of it.
pub open spec fn copies_image(
    action: ActionView,
    index: int,
    image: ImageMeta,
    map: Map<Seq<char>, Seq<char>>,
) -> bool {
    match action {
        ActionView::CopyImage { index: i, guid, steps } => {
            &&& i == index
            &&& match image.guid {
                Some(text) => guid == text@,
                None => is_guid_text(guid),
            }
            &&& steps == image_steps(image, map)
        },
        _ => false,
    }
}

fn push_images(actions: &mut Vec<Action>, images: &Vec<ImageMeta>, map: &GuidMap)
    ensures
        final(actions).len() == old(actions).len() + images.len(),
        action_views(final(actions)@).take(old(actions).len() as int) == action_views(
            old(actions)@,
        ),
        copies_images(
            action_views(final(actions)@).skip(old(actions).len() as int),
            images@,
            map@,
        ),
{
    let ghost start = action_views(actions@);
    let mut n: usize = 0;
    while n < images.len()
        invariant
            n <= images.len(),
            actions.len() == start.len() + n,
            action_views(actions@).take(start.len() as int) == start,
            forall|i: int|
                0 <= i < n ==> copies_image(
                    #[trigger] action_views(actions@)[start.len() + i],
                    i,
                    images@[i],
                    map@,
                ),
        decreases images.len() - n,
    {
        let ghost earlier = action_views(actions@);
        let plan = plan_fresh_image(&images[n], map);
        push_action(actions, Action::CopyImage { index: n, plan });
        assert(action_views(actions@).take(start.len() as int) =~= earlier.take(
            start.len() as int,
        ));
        n = n + 1;
    }
    proof {
        let tail = action_views(actions@).skip(start.len() as int);
        assert forall|i: int| 0 <= i < images.len() implies copies_image(
            #[trigger] tail[i],
            i,
            images@[i],
            map@,
        ) by {
            assert(tail[i] == action_views(actions@)[start.len() + i]);
        }
    }
}

/// What a job needs to know of a structured scan before its cells are read.
#[derive(Debug)]
pub struct GridScan {
    pub guid: Option<String>,
    pub records: u64,
    pub has_invalid_state: bool,
    pub has_color: bool,
    pub has_intensity: bool,
    pub row_min: Option<i64>,
    pub column_min: Option<i64>,
    pub meta: ScanMeta,
}

/// The decimation of a structured E57 file.
pub struct GridJob {
    run: GridRun,
    guids: GuidMap,
    layout: RecordLayout,
    origin: GridOrigin,
    number: usize,
    count: usize,
}

impl GridJob {
    /// The counters of the job.
    pub closed spec fn run(&self) -> GridRun {
        self.run
    }

    /// Which identifiers of the result stand for those of the scans begun so far.
    pub closed spec fn guids(&self) -> Map<Seq<char>, Seq<char>> {
        self.guids@
    }

    /// The fields of the scan at hand.
    pub closed spec fn layout(&self) -> RecordLayout {
        self.layout
    }

    /// Where the grid of the scan at hand begins.
    pub closed spec fn origin(&self) -> GridOrigin {
        self.origin
    }

    /// How many scans were begun.
    pub closed spec fn number(&self) -> usize {
        self.number
    }

    /// How many scans the file has.
    pub closed spec fn count(&self) -> usize {
        self.count
    }

    /// Whether all but the counters is the same.
    pub open spec fn same_scan(self, other: GridJob) -> bool {
        &&& self.guids() == other.guids()
        &&& self.layout() == other.layout()
        &&& self.origin() == other.origin()
        &&& self.number() == other.number()
        &&& self.count() == other.count()
    }

    /// A job for a file of `count` scans announced to hold `total` cells.
    pub fn new(total: usize, count: usize, use_thinning: bool, requested: usize) -> (job: GridJob)
        ensures
            job.run().well_formed(),
            job.run().spec_stride() == stride_for(use_thinning, requested),
            job.run().spec_total() == total,
            job.run().spec_processed() == 0,
            job.run().spec_written() == 0,
            job.run().cells() == Seq::<SourceCell>::empty(),
            job.guids() == Map::<Seq<char>, Seq<char>>::empty(),
            job.number() == 0,
            job.count() == count,
    {
        GridJob {
            run: GridRun::new(total, use_thinning, requested),
            guids: GuidMap::new(),
            layout: RecordLayout::structured(false, false, false),
            origin: grid_origin(None, None),
            number: 0,
            count,
        }
    }

    /// The stride of the job.
    pub fn stride(&self) -> (k: i64)
        ensures
            k == self.run().spec_stride(),
    {
        self.run.stride()
    }

    /// How many cells were read.
    pub fn processed(&self) -> (count: usize)
        ensures
            count == self.run().spec_processed(),
    {
        self.run.processed()
    }

    /// How many cells were written.
    pub fn written(&self) -> (count: usize)
        ensures
            count == self.run().spec_written(),
    {
        self.run.written()
    }

    /// Where the grid of the scan at hand begins.
    pub fn scan_origin(&self) -> (origin: GridOrigin)
        ensures
            origin == self.origin(),
    {
        self.origin
    }

    /// The first actions of the job, for a file with this identifier.
    pub open spec fn opening(k: i64, guid: Seq<char>) -> Seq<ActionView> {
        seq![ActionView::Log(line_text(LogLine::GridStart { k }))] + only_if(
            k > 1,
            seq![ActionView::AnnounceReduction { factor: k * k }],
        ) + seq![ActionView::CreateE57 { guid }]
    }

    /// The first actions of the job, for a file with this identifier.
    pub fn open_as(&self, guid: &str) -> (actions: Vec<Action>)
        requires
            self.run().spec_stride() > 1 ==> self.run().spec_stride() * self.run().spec_stride()
                <= i64::MAX,
        ensures
            action_views(actions@) == GridJob::opening(self.run().spec_stride(), guid@),
    {
        let k: i64 = self.run.stride();
        let mut actions: Vec<Action> = Vec::new();
        push_action(&mut actions, Action::Log(LogLine::GridStart { k }));
        match reduction_factor(k) {
            Some(factor) => {
                assert(k * k >= 0) by (nonlinear_arith);
                push_action(&mut actions, Action::AnnounceReduction { factor });
            },
            None => {},
        }
        push_action(&mut actions, Action::CreateE57 { guid: guid.to_owned() });
        assert(action_views(actions@) =~= GridJob::opening(k, guid@));
        actions
    }

    /// The first actions of the job, for a file with a fresh identifier.
    pub fn open(&self) -> (actions: Vec<Action>)
        requires
            self.run().spec_stride() > 1 ==> self.run().spec_stride() * self.run().spec_stride()
                <= i64::MAX,
        ensures
            exists|guid: Seq<char>|
                is_guid_text(guid) && action_views(actions@) == #[trigger] GridJob::opening(
                    self.run().spec_stride(),
                    guid,
                ),
    {
        let guid = fresh_guid();
        self.open_as(guid.as_str())
    }

    /// The fields of the records of a scan.
    pub open spec fn scan_layout(scan: GridScan) -> RecordLayout {
        RecordLayout {
            has_invalid_state: scan.has_invalid_state,
            has_grid: true,
            has_color: scan.has_color,
            has_intensity: scan.has_intensity,
        }
    }

    /// The actions that begin a scan under a new identifier.
    pub open spec fn scan_opening(
        scan: GridScan,
        number: usize,
        count: usize,
        guid: Seq<char>,
    ) -> Seq<ActionView> {
        seq![
            ActionView::Log(
                line_text(
                    LogLine::GridScan {
                        number,
                        count,
                        name: scan.meta.texts.name,
                        records: scan.records,
                    },
                ),
            ),
            ActionView::AddPointcloud { guid, fields: GridJob::scan_layout(scan).fields() },
        ] + carried(scan_steps(scan.meta))
    }

    /// Begins the next scan under this identifier.
    pub fn begin_scan_as(&mut self, scan: &GridScan, guid: &str) -> (actions: Vec<Action>)
        requires
            old(self).run().well_formed(),
            old(self).number() < usize::MAX,
        ensures
            action_views(actions@) == GridJob::scan_opening(
                *scan,
                (old(self).number() + 1) as usize,
                old(self).count(),
                guid@,
            ),
            final(self).run().well_formed(),
            final(self).run().spec_scan_written() == 0,
            final(self).run().spec_stride() == old(self).run().spec_stride(),
            final(self).run().spec_total() == old(self).run().spec_total(),
            final(self).run().spec_processed() == old(self).run().spec_processed(),
            final(self).run().spec_written() == old(self).run().spec_written(),
            final(self).run().cells() == old(self).run().cells(),
            final(self).number() == old(self).number() + 1,
            final(self).count() == old(self).count(),
            final(self).layout() == GridJob::scan_layout(*scan),
            final(self).origin() == origin_for(scan.row_min, scan.column_min),
            final(self).origin().row == (match scan.row_min { Some(row) => row, None => 0 }),
            final(self).origin().column == (match scan.column_min {
                Some(column) => column,
                None => 0,
            }),
            final(self).guids() == match scan.guid {
                Some(source) => old(self).guids().insert(source@, guid@),
                None => old(self).guids(),
            },
    {
        self.number = self.number + 1;
        self.run.begin_scan();
        self.layout =
        RecordLayout::structured(scan.has_invalid_state, scan.has_color, scan.has_intensity);
        self.origin = grid_origin(scan.row_min, scan.column_min);
        match &scan.guid {
            Some(source) => self.guids.insert(source.as_str(), guid),
            None => {},
        }
        let mut actions: Vec<Action> = Vec::new();
        let name = match &scan.meta.texts.name {
            Some(text) => Some(text.as_str().to_owned()),
            None => None,
        };
        let line = LogLine::GridScan {
            number: self.number,
            count: self.count,
            name,
            records: scan.records,
        };
        push_action(&mut actions, Action::Log(line));
        push_action(
            &mut actions,
            Action::AddPointcloud { guid: guid.to_owned(), fields: self.layout.prototype() },
        );
        push_steps(&mut actions, plan_scan(&scan.meta));
        assert(action_views(actions@) =~= GridJob::scan_opening(
            *scan,
            self.number,
            self.count,
            guid@,
        ));
        actions
    }

    /// Begins the next scan under a fresh identifier.
    pub fn begin_scan(&mut self, scan: &GridScan) -> (actions: Vec<Action>)
        requires
            old(self).run().well_formed(),
            old(self).number() < usize::MAX,
        ensures
            exists|guid: Seq<char>|
                {
                    &&& is_guid_text(guid)
                    &&& action_views(actions@) == #[trigger] GridJob::scan_opening(
                        *scan,
                        (old(self).number() + 1) as usize,
                        old(self).count(),
                        guid,
                    )
                    &&& final(self).guids() == match scan.guid {
                        Some(source) => old(self).guids().insert(source@, guid),
                        None => old(self).guids(),
                    }
                },
            final(self).run().well_formed(),
            final(self).run().spec_scan_written() == 0,
            final(self).run().spec_stride() == old(self).run().spec_stride(),
            final(self).run().spec_total() == old(self).run().spec_total(),
            final(self).run().spec_processed() == old(self).run().spec_processed(),
            final(self).run().spec_written() == old(self).run().spec_written(),
            final(self).run().cells() == old(self).run().cells(),
            final(self).number() == old(self).number() + 1,
            final(self).count() == old(self).count(),
            final(self).layout() == GridJob::scan_layout(*scan),
            final(self).origin() == origin_for(scan.row_min, scan.column_min),
            final(self).origin().row == (match scan.row_min { Some(row) => row, None => 0 }),
            final(self).origin().column == (match scan.column_min {
                Some(column) => column,
                None => 0,
            }),
    {
        let guid = fresh_guid();
        self.begin_scan_as(scan, guid.as_str())
    }

    /// Reads one cell of the scan at hand. Gives its record if it stays.
    pub fn offer(
        &mut self,
        row: i64,
        column: i64,
        state: CoordinateState,
        color: Option<Rgb8>,
        intensity: Option<u16>,
    ) -> (record: Option<Vec<FieldValue>>)
        requires
            old(self).run().well_formed(),
            old(self).run().spec_processed() < usize::MAX,
            in_range(old(self).run().spec_stride() as int, old(self).origin(), row, column),
        ensures
            match place(
                old(self).run().spec_stride() as int,
                old(self).origin(),
                row as int,
                column as int,
            ) {
                Some((r, c)) => record is Some && record->0@ == old(self).layout().values(
                    state,
                    GridCell { row: r as i64, column: c as i64 },
                    color,
                    intensity,
                ) && i64::MIN <= r <= i64::MAX && i64::MIN <= c <= i64::MAX,
                None => record is None,
            },
            final(self).run().well_formed(),
            final(self).run().spec_processed() == old(self).run().spec_processed() + 1,
            final(self).run().cells() == old(self).run().cells().push(
                SourceCell { origin: old(self).origin(), row, column },
            ),
            final(self).run().kept() == old(self).run().kept() + if record is Some {
                1nat
            } else {
                0nat
            },
            final(self).run().spec_stride() == old(self).run().spec_stride(),
            final(self).run().spec_total() == old(self).run().spec_total(),
            final(self).run().spec_written() == old(self).run().spec_written(),
            final(self).run().spec_scan_written() == old(self).run().spec_scan_written(),
            final(self).same_scan(*old(self)),
    {
        match self.run.offer(self.origin, row, column) {
            Some(cell) => Some(self.layout.record(state, cell, color, intensity)),
            None => None,
        }
    }

    /// Counts a cell as written, and tells what progress is reported.
    pub fn wrote(&mut self) -> (mark: Option<ProgressMark>)
        requires
            old(self).run().well_formed(),
            old(self).run().spec_written() < old(self).run().kept(),
        ensures
            mark == report(
                Pipeline::StructuredE57,
                old(self).run().spec_total(),
                old(self).run().spec_processed(),
            ),
            final(self).run().well_formed(),
            final(self).run().spec_written() == old(self).run().spec_written() + 1,
            final(self).run().spec_scan_written() == old(self).run().spec_scan_written() + 1,
            final(self).run().cells() == old(self).run().cells(),
            final(self).run().spec_stride() == old(self).run().spec_stride(),
            final(self).run().spec_total() == old(self).run().spec_total(),
            final(self).run().spec_processed() == old(self).run().spec_processed(),
            final(self).same_scan(*old(self)),
    {
        self.run.wrote()
    }

    /// The actions that end the scan at hand.
    pub fn end_scan(&self) -> (actions: Vec<Action>)
        ensures
            action_views(actions@) == seq![
                ActionView::FinishPointcloud,
                ActionView::Log(
                    line_text(
                        LogLine::GridScanWritten {
                            number: self.number(),
                            cells: self.run().spec_scan_written(),
                        },
                    ),
                ),
            ],
    {
        let mut actions: Vec<Action> = Vec::new();
        push_action(&mut actions, Action::FinishPointcloud);
        let line = LogLine::GridScanWritten {
            number: self.number,
            cells: self.run.scan_written(),
        };
        push_action(&mut actions, Action::Log(line));
        assert(action_views(actions@) =~= seq![
            ActionView::FinishPointcloud,
            ActionView::Log(line_text(line)),
        ]);
        actions
    }

    /// The actions that copy the images and complete the file.
    pub fn copy_images(&self, images: &Vec<ImageMeta>) -> (actions: Vec<Action>)
        ensures
            action_views(actions@).len() == images.len() + 5,
            action_views(actions@).take(2) == seq![
                ActionView::Log(line_text(LogLine::CopyingImages)),
                ActionView::Progress(ProgressMark::Percent(90)),
            ],
            copies_images(
                action_views(actions@).subrange(2, 2 + images.len()),
                images@,
                self.guids(),
            ),
            action_views(actions@).skip(2 + images.len()) == seq![
                ActionView::Log(line_text(LogLine::ImagesCopied { count: images.len() })),
                ActionView::Progress(ProgressMark::Percent(98)),
                ActionView::FinishFile,
            ],
    {
        let mut actions: Vec<Action> = Vec::new();
        push_action(&mut actions, Action::Log(LogLine::CopyingImages));
        push_action(&mut actions, Action::Progress(ProgressMark::Percent(90)));
        let ghost head = action_views(actions@);
        assert(head =~= seq![
            ActionView::Log(line_text(LogLine::CopyingImages)),
            ActionView::Progress(ProgressMark::Percent(90)),
        ]);
        push_images(&mut actions, images, &self.guids);
        let ghost middle = action_views(actions@);
        push_action(&mut actions, Action::Log(LogLine::ImagesCopied { count: images.len() }));
        push_action(&mut actions, Action::Progress(ProgressMark::Percent(98)));
        push_action(&mut actions, Action::FinishFile);
        proof {
            let whole = action_views(actions@);
            assert(whole.take(2) =~= middle.take(2));
            assert(whole.subrange(2, 2 + images.len()) =~= middle.skip(2));
            assert(whole.skip(2 + images.len()) =~= seq![
                ActionView::Log(line_text(LogLine::ImagesCopied { count: images.len() })),
                ActionView::Progress(ProgressMark::Percent(98)),
                ActionView::FinishFile,
            ]);
        }
        actions
    }

    /// The last lines of the job, with the time that it took.
    pub fn conclude(&self, seconds: &str) -> (actions: Vec<Action>)
        ensures
            action_views(actions@).len() == 2,
            action_views(actions@)[0] == ActionView::Log(
                line_text(LogLine::GridTotal { count: self.run().spec_written() }),
            ),
            action_views(actions@)[1] == ActionView::Log(
                "[Конец] Децимация структурированного E57 завершена за "@ + seconds@ + " сек."@,
            ),
    {
        let mut actions: Vec<Action> = Vec::new();
        push_action(&mut actions, Action::Log(LogLine::GridTotal { count: self.run.written() }));
        push_action(&mut actions, Action::Log(LogLine::GridEnd { seconds: seconds.to_owned() }));
        actions
    }
}

/// A job that handles points one by one, without a grid: every pipeline but the
/// decimation of structured files.
pub struct PointJob {
    pipeline: Pipeline,
    run: PointRun,
    layout: RecordLayout,
    guid: String,
}

impl PointJob {
    /// The pipeline of the job.
    pub closed spec fn pipeline(&self) -> Pipeline {
        self.pipeline
    }

    /// The counters of the job.
    pub closed spec fn run(&self) -> PointRun {
        self.run
    }

    /// The fields of the records, where the result is an E57 file.
    pub closed spec fn layout(&self) -> RecordLayout {
        self.layout
    }

    /// The identifier of the point cloud of the result, where it is an E57 file.
    pub closed spec fn guid(&self) -> Seq<char> {
        self.guid@
    }

    /// The counters are those of the pipeline, and agree with the stream.
    pub open spec fn well_formed(&self) -> bool {
        &&& self.run().well_formed()
        &&& self.run().spec_pipeline() == self.pipeline()
    }

    /// The fields of the records: LAS points always have an intensity.
    pub open spec fn layout_for(
        pipeline: Pipeline,
        has_color: bool,
        has_intensity: bool,
    ) -> RecordLayout {
        RecordLayout {
            has_invalid_state: false,
            has_grid: false,
            has_color,
            has_intensity: has_intensity || pipeline == Pipeline::LasToE57,
        }
    }

    /// A job for a source announced to hold `total` points. The result gets this
    /// identifier for its point cloud, where it is an E57 file.
    pub fn new_as(
        pipeline: Pipeline,
        total: usize,
        has_color: bool,
        has_intensity: bool,
        guid: &str,
    ) -> (job: PointJob)
        ensures
            job.well_formed(),
            job.pipeline() == pipeline,
            job.run().spec_total() == total,
            job.run().offers() == Seq::<PointOffer>::empty(),
            job.run().spec_written() == 0,
            job.layout() == PointJob::layout_for(pipeline, has_color, has_intensity),
            job.guid() == guid@,
    {
        PointJob {
            pipeline,
            run: PointRun::new(pipeline, total),
            layout: RecordLayout::merged(
                has_color,
                has_intensity || pipeline == Pipeline::LasToE57,
            ),
            guid: guid.to_owned(),
        }
    }

    /// A job for a source announced to hold `total` points, with a fresh identifier.
    pub fn new(pipeline: Pipeline, total: usize, has_color: bool, has_intensity: bool) -> (job:
        PointJob)
        ensures
            job.well_formed(),
            job.pipeline() == pipeline,
            job.run().spec_total() == total,
            job.run().offers() == Seq::<PointOffer>::empty(),
            job.run().spec_written() == 0,
            job.layout() == PointJob::layout_for(pipeline, has_color, has_intensity),
            is_guid_text(job.guid()),
    {
        let guid = fresh_guid();
        PointJob::new_as(pipeline, total, has_color, has_intensity, guid.as_str())
    }

    /// How many points were read.
    pub fn processed(&self) -> (count: usize)
        requires
            self.well_formed(),
        ensures
            count == self.run().offers().len(),
    {
        self.run.processed()
    }

    /// How many points were written.
    pub fn written(&self) -> (count: usize)
        ensures
            count == self.run().spec_written(),
    {
        self.run.written()
    }

    /// The first actions of a job, for a file with this identifier where it is an E57
    /// file.
    pub open spec fn opening(&self, file_guid: Seq<char>) -> Seq<ActionView> {
        match self.pipeline().writes() {
            PointCloudFormat::Las => seq![ActionView::CreateLas],
            PointCloudFormat::E57 => seq![
                ActionView::CreateE57 { guid: file_guid },
                ActionView::AddPointcloud { guid: self.guid(), fields: self.layout().fields() },
            ],
        }
    }

    /// The first actions of the job, for a file with this identifier.
    pub fn open_as(&self, file_guid: &str) -> (actions: Vec<Action>)
        ensures
            action_views(actions@) == self.opening(file_guid@),
    {
        let mut actions: Vec<Action> = Vec::new();
        match self.pipeline {
            Pipeline::LasToLas | Pipeline::E57ToLas => {
                push_action(&mut actions, Action::CreateLas);
            },
            _ => {
                push_action(&mut actions, Action::CreateE57 { guid: file_guid.to_owned() });
                let guid = self.guid.as_str().to_owned();
                let fields = self.layout.prototype();
                push_action(&mut actions, Action::AddPointcloud { guid, fields });
            },
        }
        assert(action_views(actions@) =~= self.opening(file_guid@));
        actions
    }

    /// The first actions of the job, for a file with a fresh identifier.
    pub fn open(&self) -> (actions: Vec<Action>)
        ensures
            exists|guid: Seq<char>|
                is_guid_text(guid) && action_views(actions@) == #[trigger] self.opening(guid),
    {
        let guid = fresh_guid();
        self.open_as(guid.as_str())
    }

    /// The action before a scan is read: a line, if the file has several scans.
    pub fn begin_scan(&self, index: usize, count: usize) -> (action: Option<Action>)
        requires
            index < count,
        ensures
            match action {
                Some(shown) => count > 1 && shown@ == ActionView::Log(
                    line_text(LogLine::ScanRead { number: (index + 1) as usize, count }),
                ),
                None => count <= 1,
            },
    {
        match scan_line(index, count) {
            Some(line) => Some(Action::Log(line)),
            None => None,
        }
    }

    /// Takes the next point and tells whether it is to be written.
    pub fn offer(&mut self, offer: PointOffer) -> (keep: bool)
        requires
            old(self).well_formed(),
            old(self).run().offers().len() < usize::MAX,
        ensures
            keep == passes(seen_after(old(self).run().offers()), offer),
            final(self).well_formed(),
            final(self).run().offers() == old(self).run().offers().push(offer),
            final(self).run().spec_written() == old(self).run().spec_written(),
            final(self).run().spec_total() == old(self).run().spec_total(),
            final(self).pipeline() == old(self).pipeline(),
            final(self).layout() == old(self).layout(),
            final(self).guid() == old(self).guid(),
    {
        self.run.offer(offer)
    }

    /// The record of a point, where the result is an E57 file.
    pub fn record(&self, color: Option<Rgb8>, intensity: Option<u16>) -> (values: Vec<FieldValue>)
        ensures
            values@ == self.layout().values(
                CoordinateState::Valid,
                GridCell { row: 0, column: 0 },
                color,
                intensity,
            ),
    {
        self.layout.record(
            CoordinateState::Valid,
            GridCell { row: 0, column: 0 },
            color,
            intensity,
        )
    }

    /// Counts a point as written, and tells what progress is reported.
    pub fn wrote(&mut self) -> (mark: Option<ProgressMark>)
        requires
            old(self).well_formed(),
            old(self).run().spec_written() < passed(old(self).run().offers()),
        ensures
            mark == report(
                old(self).pipeline(),
                old(self).run().spec_total(),
                old(self).run().offers().len() as usize,
            ),
            final(self).well_formed(),
            final(self).run().spec_written() == old(self).run().spec_written() + 1,
            final(self).run().offers() == old(self).run().offers(),
            final(self).run().spec_total() == old(self).run().spec_total(),
            final(self).pipeline() == old(self).pipeline(),
            final(self).layout() == old(self).layout(),
            final(self).guid() == old(self).guid(),
    {
        self.run.wrote()
    }

    /// Whether a map leads every reference to one of the scans to `guid`, and every other
    /// reference to itself.
    pub open spec fn merges(
        map: Map<Seq<char>, Seq<char>>,
        scans: Seq<Option<String>>,
        guid: Seq<char>,
    ) -> bool {
        forall|key: Seq<char>| #[trigger]
            resolved(map, key) == if names_scan(scans, key) {
                guid
            } else {
                key
            }
    }

    /// Whether these actions complete the result. Of a LAS file there is nothing to
    /// complete; the images of an E57 file are copied, with what they refer to merged
    /// into the one point cloud.
    pub open spec fn closes(
        &self,
        actions: Seq<ActionView>,
        scans: Seq<Option<String>>,
        images: Seq<ImageMeta>,
    ) -> bool {
        let n = images.len() as int;
        match self.pipeline() {
            Pipeline::LasToLas | Pipeline::E57ToLas => actions == Seq::<ActionView>::empty(),
            Pipeline::LasToE57 => actions == seq![
                ActionView::FinishPointcloud,
                ActionView::FinishFile,
            ],
            _ => {
                &&& actions.len() == n + 2 + if n > 0 {
                    1int
                } else {
                    0int
                }
                &&& actions[0] == ActionView::FinishPointcloud
                &&& exists|map: Map<Seq<char>, Seq<char>>|
                    PointJob::merges(map, scans, self.guid()) && #[trigger] copies_images(
                        actions.subrange(1, 1 + n),
                        images,
                        map,
                    )
                &&& n > 0 ==> actions[1 + n] == ActionView::Log(
                    line_text(LogLine::ImagesCopied { count: n as usize }),
                )
                &&& actions.last() == ActionView::FinishFile
            },
        }
    }

    /// The actions that complete the result, given the identifiers of the scans and the
    /// images of the source.
    pub fn close(&self, scans: &Vec<Option<String>>, images: &Vec<ImageMeta>) -> (actions: Vec<
        Action,
    >)
        ensures
            self.closes(action_views(actions@), scans@, images@),
    {
        let mut actions: Vec<Action> = Vec::new();
        match self.pipeline {
            Pipeline::LasToLas | Pipeline::E57ToLas => {
                assert(action_views(actions@) =~= Seq::<ActionView>::empty());
            },
            Pipeline::LasToE57 => {
                push_action(&mut actions, Action::FinishPointcloud);
                push_action(&mut actions, Action::FinishFile);
                assert(action_views(actions@) =~= seq![
                    ActionView::FinishPointcloud,
                    ActionView::FinishFile,
                ]);
            },
            _ => {
                push_action(&mut actions, Action::FinishPointcloud);
                let ghost head = action_views(actions@);
                let map = GuidMap::merging(scans, self.guid.as_str());
                push_images(&mut actions, images, &map);
                let ghost middle = action_views(actions@);
                if images.len() > 0 {
                    push_action(
                        &mut actions,
                        Action::Log(LogLine::ImagesCopied { count: images.len() }),
                    );
                }
                push_action(&mut actions, Action::FinishFile);
                proof {
                    let whole = action_views(actions@);
                    assert(middle.take(1)[0] == middle[0]);
                    assert(whole.subrange(1, 1 + images.len()) =~= middle.skip(1));
                    assert(PointJob::merges(map@, scans@, self.guid()));
                    assert(copies_images(
                        whole.subrange(1, 1 + images@.len() as int),
                        images@,
                        map@,
                    ));
                }
            },
        }
        actions
    }

    /// The last lines of the job, with the time that it took.
    pub fn conclude(&self, seconds: &str) -> (actions: Vec<Action>)
        ensures
            action_views(actions@).len() == 2,
            action_views(actions@)[0] == ActionView::Log(
                line_text(LogLine::PointTotal { count: self.run().spec_written() }),
            ),
            action_views(actions@)[1] == ActionView::Log(
                "[Конец] Обработка завершена за "@ + seconds@ + " сек."@,
            ),
    {
        let mut actions: Vec<Action> = Vec::new();
        push_action(&mut actions, Action::Log(LogLine::PointTotal { count: self.run.written() }));
        push_action(&mut actions, Action::Log(LogLine::PointEnd { seconds: seconds.to_owned() }));
        actions
    }
}

/// A decimated scan stays structured: its records give a row and a column.
pub proof fn law_decimated_scan_stays_structured(scan: GridScan)
    ensures
        GridJob::scan_layout(scan).fields().contains(RecordField::RowIndex),
        GridJob::scan_layout(scan).fields().contains(RecordField::ColumnIndex),
{
    let fields = GridJob::scan_layout(scan).fields();
    let at: int = if scan.has_invalid_state {
        4
    } else {
        3
    };
    assert(fields[at] == RecordField::RowIndex);
    assert(fields[at + 1] == RecordField::ColumnIndex);
}

/// The record of every cell that stays fits the fields of its scan, for cells whose
/// distance from the origin fits an index.
pub proof fn law_decimated_record_fits(
    scan: GridScan,
    k: int,
    origin: GridOrigin,
    row: int,
    column: int,
    state: CoordinateState,
    color: Option<Rgb8>,
    intensity: Option<u16>,
)
    requires
        k >= 1,
        0 <= row - origin.row <= INDEX_MAX,
        0 <= column - origin.column <= INDEX_MAX,
        place(k, origin, row, column) is Some,
    ensures
        ({
            let (r, c) = place(k, origin, row, column)->0;
            let layout = GridJob::scan_layout(scan);
            let values = layout.values(
                state,
                GridCell { row: r as i64, column: c as i64 },
                color,
                intensity,
            );
            &&& values.len() == layout.fields().len()
            &&& forall|i: int|
                0 <= i < values.len() ==> fits(layout.fields()[i], #[trigger] values[i])
        }),
{
    let (r, c) = place(k, origin, row, column)->0;
    law_new_index_tells_source(k, origin, row, column);
    assert(0 <= r <= row - origin.row) by (nonlinear_arith)
        requires
            row - origin.row == k * r,
            0 <= row - origin.row,
            k >= 1,
    ;
    assert(0 <= c <= column - origin.column) by (nonlinear_arith)
        requires
            column - origin.column == k * c,
            0 <= column - origin.column,
            k >= 1,
    ;
    let layout = GridJob::scan_layout(scan);
    let cell = GridCell { row: r as i64, column: c as i64 };
    law_record_fits_prototype(layout, state, cell, color, intensity);
    let values = layout.values(state, cell, color, intensity);
    assert forall|i: int| 0 <= i < values.len() implies fits(
        layout.fields()[i],
        #[trigger] values[i],
    ) by {
        let field = layout.fields()[i];
    }
}

/// A point of a LAS file made from a point of an E57 file: its colour widened to sixteen
/// bits per channel, and its intensity.
pub open spec fn las_point(color: Rgb8, intensity: u16) -> ((u16, u16, u16), u16) {
    ((widened(color.red), widened(color.green), widened(color.blue)), intensity)
}

/// The record of a point of a LAS file in an E57 file.
pub open spec fn record_of_las(point: ((u16, u16, u16), u16)) -> Seq<FieldValue> {
    let ((red, green, blue), intensity) = point;
    PointJob::layout_for(Pipeline::LasToE57, true, true).values(
        CoordinateState::Valid,
        GridCell { row: 0, column: 0 },
        Some(Rgb8 { red: narrow(red), green: narrow(green), blue: narrow(blue) }),
        Some(intensity),
    )
}

/// From E57 to LAS and back, without thinning and with valid points alone, all points
/// stay, in order, and each has the colour and the intensity that it had.
pub proof fn law_round_trip_through_las(points: Seq<(Rgb8, u16)>)
    ensures
        ({
            let offers = Seq::new(
                points.len(),
                |i: int| offered(CoordinateState::Valid, None),
            );
            &&& kept(offers) == offers
            &&& passed(offers) == points.len()
            &&& forall|i: int| 0 <= i < points.len() ==> #[trigger] passes_at(offers, i)
        }),
        forall|i: int|
            0 <= i < points.len() ==> record_of_las(
                las_point((#[trigger] points[i]).0, points[i].1),
            ) == seq![
                FieldValue::X,
                FieldValue::Y,
                FieldValue::Z,
                FieldValue::Integer(points[i].0.red as i64),
                FieldValue::Integer(points[i].0.green as i64),
                FieldValue::Integer(points[i].0.blue as i64),
                FieldValue::Integer(points[i].1 as i64),
            ],
{
    let offers = Seq::new(points.len(), |i: int| offered(CoordinateState::Valid, None));
    law_without_thinning_order_stays(offers);
    assert forall|i: int| 0 <= i < points.len() implies record_of_las(
        las_point((#[trigger] points[i]).0, points[i].1),
    ) == seq![
        FieldValue::X,
        FieldValue::Y,
        FieldValue::Z,
        FieldValue::Integer(points[i].0.red as i64),
        FieldValue::Integer(points[i].0.green as i64),
        FieldValue::Integer(points[i].0.blue as i64),
        FieldValue::Integer(points[i].1 as i64),
    ] by {
        let (color, intensity) = points[i];
        law_color_survives_widening(
            PointJob::layout_for(Pipeline::LasToE57, true, true),
            CoordinateState::Valid,
            GridCell { row: 0, column: 0 },
            color,
            Some(intensity),
        );
    }
}

/// The fields of a merged result are the position, the three colours exactly if the
/// source has colours, and the intensity exactly if the source has intensities or is a
/// LAS file, the one independently of the other; no grid, and no state.
pub proof fn law_merged_fields_follow_the_source(
    pipeline: Pipeline,
    has_color: bool,
    has_intensity: bool,
)
    ensures
        ({
            let fields = PointJob::layout_for(pipeline, has_color, has_intensity).fields();
            &&& fields.contains(RecordField::CartesianX)
            &&& fields.contains(RecordField::CartesianY)
            &&& fields.contains(RecordField::CartesianZ)
            &&& fields.contains(RecordField::ColorRed) <==> has_color
            &&& fields.contains(RecordField::ColorGreen) <==> has_color
            &&& fields.contains(RecordField::ColorBlue) <==> has_color
            &&& fields.contains(RecordField::Intensity) <==> has_intensity || pipeline
                == Pipeline::LasToE57
            &&& !fields.contains(RecordField::CartesianInvalidState)
            &&& !fields.contains(RecordField::RowIndex)
            &&& !fields.contains(RecordField::ColumnIndex)
        }),
{
    law_fields_follow_the_layout(PointJob::layout_for(pipeline, has_color, has_intensity));
}

/// The fields of a decimated scan are the position, the two indices, and each of the
/// state, the colours and the intensity exactly if the scan has it, independently of the
/// others.
pub proof fn law_decimated_fields_follow_the_scan(scan: GridScan)
    ensures
        ({
            let fields = GridJob::scan_layout(scan).fields();
            &&& fields.contains(RecordField::CartesianX)
            &&& fields.contains(RecordField::CartesianY)
            &&& fields.contains(RecordField::CartesianZ)
            &&& fields.contains(RecordField::CartesianInvalidState) <==> scan.has_invalid_state
            &&& fields.contains(RecordField::RowIndex)
            &&& fields.contains(RecordField::ColumnIndex)
            &&& fields.contains(RecordField::ColorRed) <==> scan.has_color
            &&& fields.contains(RecordField::ColorGreen) <==> scan.has_color
            &&& fields.contains(RecordField::ColorBlue) <==> scan.has_color
            &&& fields.contains(RecordField::Intensity) <==> scan.has_intensity
        }),
{
    law_fields_follow_the_layout(GridJob::scan_layout(scan));
}

/// A grid job begins with a line about its stride, tells the reduction by the square of
/// the stride exactly if that is above one, and then creates the file under the
/// identifier given.
pub proof fn law_grid_job_opens_its_file(k: i64, guid: Seq<char>)
    ensures
        ({
            let actions = GridJob::opening(k, guid);
            &&& actions.len() == if k > 1 {
                3int
            } else {
                2int
            }
            &&& actions[0] == ActionView::Log(line_text(LogLine::GridStart { k }))
            &&& k > 1 ==> actions[1] == (ActionView::AnnounceReduction { factor: k * k })
            &&& actions.last() == (ActionView::CreateE57 { guid })
        }),
{
}

/// A scan begins with a line that tells its number, its name and its size, then its point
/// cloud under the identifier given, and then a step for each thing that is carried over,
/// in the order of the scan's plan.
pub proof fn law_scan_opens_its_point_cloud(
    scan: GridScan,
    number: usize,
    count: usize,
    guid: Seq<char>,
    i: int,
)
    ensures
        ({
            let actions = GridJob::scan_opening(scan, number, count, guid);
            let steps = scan_steps(scan.meta);
            &&& actions.len() == 2 + steps.len()
            &&& actions[0] == ActionView::Log(
                line_text(
                    LogLine::GridScan {
                        number,
                        count,
                        name: scan.meta.texts.name,
                        records: scan.records,
                    },
                ),
            )
            &&& actions[1] is AddPointcloud
            &&& actions[1]->AddPointcloud_guid == guid
            &&& actions[1]->fields == GridJob::scan_layout(scan).fields()
            &&& 0 <= i < steps.len() ==> actions[2 + i] == ActionView::Carry(steps[i])
        }),
{
}

/// A point job creates a file of the format that its pipeline writes, and in an E57 file
/// begins one point cloud under the identifier and with the fields of the job.
pub proof fn law_point_job_opens_its_file(job: PointJob, file_guid: Seq<char>)
    ensures
        ({
            let actions = job.opening(file_guid);
            let to_las = job.pipeline() == Pipeline::LasToLas || job.pipeline()
                == Pipeline::E57ToLas;
            &&& to_las ==> actions == seq![ActionView::CreateLas]
            &&& !to_las ==> {
                &&& actions.len() == 2
                &&& actions[0] == (ActionView::CreateE57 { guid: file_guid })
                &&& actions[1] == (ActionView::AddPointcloud {
                    guid: job.guid(),
                    fields: job.layout().fields(),
                })
            }
        }),
{
}

/// Whatever copies the images of a file copies each of them once, at its own position, and
/// with a projection exactly if the image has it, of its kind and with its mask.
pub proof fn law_each_image_is_copied_whole(
    actions: Seq<ActionView>,
    images: Seq<ImageMeta>,
    map: Map<Seq<char>, Seq<char>>,
    i: int,
    step: CopyStepView,
)
    requires
        copies_images(actions, images, map),
        0 <= i < images.len(),
    ensures
        actions.len() == images.len(),
        actions[i] is CopyImage,
        actions[i]->index == i,
        images[i].guid is Some ==> actions[i]->CopyImage_guid == images[i].guid->0@,
        actions[i]->steps == image_steps(images[i], map),
        step is Projection ==> (actions[i]->steps.contains(step) <==> images[i].projection == Some(
            (step->kind, step->Projection_mask),
        )),
        step is PointcloudGuid && actions[i]->steps.contains(step) ==> images[i].pointcloud_guid
            is Some,
        actions[i]->steps.contains(CopyStepView::Finish),
{
    assert(copies_image(actions[i], i, images[i], map));
    law_image_keeps_what_it_has(images[i], map, step);
    law_image_keeps_what_it_has(images[i], map, CopyStepView::Finish);
}

/// Where all scans are merged, a reference to any of them leads to the one point cloud,
/// and a reference to anything else to itself.
pub proof fn law_merged_references_lead_to_one(
    map: Map<Seq<char>, Seq<char>>,
    scans: Seq<Option<String>>,
    guid: Seq<char>,
    i: int,
    reference: Seq<char>,
)
    requires
        PointJob::merges(map, scans, guid),
    ensures
        0 <= i < scans.len() && scans[i] is Some ==> resolved(map, scans[i]->0@) == guid,
        (forall|j: int|
            0 <= j < scans.len() && (#[trigger] scans[j]) is Some ==> scans[j]->0@ != reference)
            ==> resolved(map, reference) == reference,
{
    law_scans_are_named_by_their_identifiers(scans, reference);
    if 0 <= i < scans.len() && scans[i] is Some {
        law_scans_are_named_by_their_identifiers(scans, scans[i]->0@);
        assert(names_scan(scans, scans[i]->0@));
        assert(resolved(map, scans[i]->0@) == guid);
    }
    assert(resolved(map, reference) == if names_scan(scans, reference) {
        guid
    } else {
        reference
    });
}

/// What completes a merged E57 file finishes the point cloud first and the file last, and
/// copies every image in between; of a LAS file nothing is left to complete, and a file
/// made from LAS has no images.
pub proof fn law_closing_copies_every_image(
    job: PointJob,
    actions: Seq<ActionView>,
    scans: Seq<Option<String>>,
    images: Seq<ImageMeta>,
)
    requires
        job.closes(actions, scans, images),
    ensures
        job.pipeline() == Pipeline::LasToLas || job.pipeline() == Pipeline::E57ToLas
            ==> actions.len() == 0,
        job.pipeline() == Pipeline::LasToE57 ==> actions == seq![
            ActionView::FinishPointcloud,
            ActionView::FinishFile,
        ],
        job.pipeline() == Pipeline::UnstructuredE57 ==> {
            &&& actions[0] == ActionView::FinishPointcloud
            &&& actions.last() == ActionView::FinishFile
            &&& images.len() == 0 ==> actions.len() == 2
            &&& images.len() > 0 ==> actions.len() == images.len() + 3 && actions[actions.len() - 2]
                == ActionView::Log(
                line_text(LogLine::ImagesCopied { count: images.len() as usize }),
            )
            &&& forall|i: int|
                0 <= i < images.len() ==> (#[trigger] actions[1 + i]) is CopyImage && actions[1
                    + i]->index == i
        },
{
    if job.pipeline() == Pipeline::UnstructuredE57 {
        let n = images.len() as int;
        let map = choose|map: Map<Seq<char>, Seq<char>>|
            PointJob::merges(map, scans, job.guid()) && #[trigger] copies_images(
                actions.subrange(1, 1 + n),
                images,
                map,
            );
        assert forall|i: int| 0 <= i < images.len() implies (#[trigger] actions[1 + i]) is CopyImage
            && actions[1 + i]->index == i by {
            assert(actions.subrange(1, 1 + n)[i] == actions[1 + i]);
            assert(copies_image(actions.subrange(1, 1 + n)[i], i, images[i], map));
        }
    }
}

/// What offering a cell and counting one as written leave alone: the identifiers, the
/// fields, the origin and the numbers of the scans.
pub proof fn law_same_scan_keeps_all_but_counters(job: GridJob, other: GridJob)
    requires
        job.same_scan(other),
    ensures
        job.guids() == other.guids(),
        job.layout() == other.layout(),
        job.origin() == other.origin(),
        job.number() == other.number(),
        job.count() == other.count(),
{
}

/// Actions are looked at one by one: each by its kind, with its own text, identifier,
/// fields, mark and plan.
pub proof fn law_actions_are_seen_as_they_are(actions: Seq<Action>, i: int)
    requires
        0 <= i < actions.len(),
    ensures
        action_views(actions).len() == actions.len(),
        ({
            let action = actions[i];
            let seen = action_views(actions)[i];
            &&& action is Log <==> seen is Log
            &&& action is Log ==> seen->Log_0 == line_text(action->Log_0)
            &&& action is Progress <==> seen is Progress
            &&& action is Progress ==> seen->Progress_0 == action->Progress_0
            &&& action is AnnounceReduction <==> seen is AnnounceReduction
            &&& action is AnnounceReduction ==> seen->factor == action->factor
            &&& action is CreateLas <==> seen is CreateLas
            &&& action is CreateE57 <==> seen is CreateE57
            &&& action is CreateE57 ==> seen->CreateE57_guid == action->CreateE57_guid@
            &&& action is AddPointcloud <==> seen is AddPointcloud
            &&& action is AddPointcloud ==> seen->AddPointcloud_guid == action->AddPointcloud_guid@
                && seen->fields == action->fields@
            &&& action is Carry <==> seen is Carry
            &&& action is Carry ==> seen->Carry_0 == action->Carry_0@
            &&& action is FinishPointcloud <==> seen is FinishPointcloud
            &&& action is CopyImage <==> seen is CopyImage
            &&& action is CopyImage ==> {
                &&& seen->index == action->index
                &&& seen->CopyImage_guid == action->plan.guid@
                &&& seen->steps == step_views(action->plan.steps@)
            }
            &&& action is FinishFile <==> seen is FinishFile
        }),
{
}

} // verus!
