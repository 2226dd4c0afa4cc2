//! What is carried over from a source file beside its points: the metadata of scans,
//! and images with theirs.
//!
//! A plan is a list of steps in the order in which they are taken. A step holds the
//! text that it writes; what it carries over beyond texts it names.

use crate::guid::fresh_guid;
use crate::guid::is_guid_text;
use crate::guid::resolved;
use crate::guid::GuidMap;
use crate::record::lemma_sum_holds;
use crate::record::only_if;
use vstd::prelude::*;

verus! {

/// The texts that describe a scan or an image.
#[derive(Clone, Copy, Debug, PartialEq, Eq, Structural)]
pub enum TextField {
    Name,
    Description,
    SensorVendor,
    SensorModel,
    SensorSerial,
}

/// How an image maps to the space around the scanner.
#[derive(Clone, Copy, Debug, PartialEq, Eq, Structural)]
pub enum ProjectionKind {
    Spherical,
    Pinhole,
    Cylindrical,
}

/// One step of copying.
#[derive(Debug)]
pub enum CopyStep {
    /// Writes a text.
    Text(TextField, String),
    /// Carries the time of an image over.
    Acquisition,
    /// Carries the time over at which a scan began.
    AcquisitionStart,
    /// Carries the time over at which a scan ended.
    AcquisitionEnd,
    /// Writes the identifier of the point cloud that an image belongs to.
    PointcloudGuid(String),
    /// Carries the pose over, scaled.
    Transform,
    /// Carries the limits of the colours over.
    ColorLimits,
    /// Carries the limits of the intensities over.
    IntensityLimits,
    /// Carries the preview over, with its mask if it has one.
    Preview { mask: bool },
    /// Carries the projected image over, with its mask if it has one.
    Projection { kind: ProjectionKind, mask: bool },
    /// Completes the image.
    Finish,
}

/// A step of copying, over character sequences.
pub enum CopyStepView {
    Text(TextField, Seq<char>),
    Acquisition,
    AcquisitionStart,
    AcquisitionEnd,
    PointcloudGuid(Seq<char>),
    Transform,
    ColorLimits,
    IntensityLimits,
    Preview { mask: bool },
    Projection { kind: ProjectionKind, mask: bool },
    Finish,
}

impl View for CopyStep {
    type V = CopyStepView;

    open spec fn view(&self) -> CopyStepView {
        match self {
            CopyStep::Text(field, text) => CopyStepView::Text(*field, text@),
            CopyStep::Acquisition => CopyStepView::Acquisition,
            CopyStep::AcquisitionStart => CopyStepView::AcquisitionStart,
            CopyStep::AcquisitionEnd => CopyStepView::AcquisitionEnd,
            CopyStep::PointcloudGuid(text) => CopyStepView::PointcloudGuid(text@),
            CopyStep::Transform => CopyStepView::Transform,
            CopyStep::ColorLimits => CopyStepView::ColorLimits,
            CopyStep::IntensityLimits => CopyStepView::IntensityLimits,
            CopyStep::Preview { mask } => CopyStepView::Preview { mask: *mask },
            CopyStep::Projection { kind, mask } => CopyStepView::Projection {
                kind: *kind,
                mask: *mask,
            },
            CopyStep::Finish => CopyStepView::Finish,
        }
    }
}

/// The steps of a plan, over character sequences.
pub open spec fn step_views(steps: Seq<CopyStep>) -> Seq<CopyStepView> {
    steps.map_values(|step: CopyStep| step@)
}

/// The texts of a scan or an image.
#[derive(Debug)]
pub struct TextInfo {
    pub name: Option<String>,
    pub description: Option<String>,
    pub sensor_vendor: Option<String>,
    pub sensor_model: Option<String>,
    pub sensor_serial: Option<String>,
}

/// What a scan of the source has beside its points.
#[derive(Debug)]
pub struct ScanMeta {
    pub texts: TextInfo,
    pub has_acquisition_start: bool,
    pub has_acquisition_end: bool,
    pub has_transform: bool,
    pub has_color_limits: bool,
    pub has_intensity_limits: bool,
}

/// What an image of the source has.
#[derive(Debug)]
pub struct ImageMeta {
    pub guid: Option<String>,
    pub texts: TextInfo,
    pub has_acquisition: bool,
    pub pointcloud_guid: Option<String>,
    pub has_transform: bool,
    /// Whether the preview has a mask, if there is a preview.
    pub preview_mask: Option<bool>,
    /// The kind of the projection, if there is one, and whether it has a mask.
    pub projection: Option<(ProjectionKind, bool)>,
}

/// An image of the result: its identifier, and the steps that fill it.
#[derive(Debug)]
pub struct ImagePlan {
    pub guid: String,
    pub steps: Vec<CopyStep>,
}

/// The step that writes a text, if the source has it.
pub open spec fn text_step(field: TextField, text: Option<String>) -> Seq<CopyStepView> {
    match text {
        Some(written) => seq![CopyStepView::Text(field, written@)],
        None => Seq::empty(),
    }
}

/// The steps that write the texts which the source has.
pub open spec fn text_steps(texts: TextInfo) -> Seq<CopyStepView> {
    text_step(TextField::Name, texts.name) + text_step(TextField::Description, texts.description)
        + text_step(TextField::SensorVendor, texts.sensor_vendor) + text_step(
        TextField::SensorModel,
        texts.sensor_model,
    ) + text_step(TextField::SensorSerial, texts.sensor_serial)
}

/// The steps that carry a scan's metadata over: what the source has, and no more.
pub open spec fn scan_steps(meta: ScanMeta) -> Seq<CopyStepView> {
    text_steps(meta.texts) + only_if(
        meta.has_acquisition_start,
        seq![CopyStepView::AcquisitionStart],
    ) + only_if(meta.has_acquisition_end, seq![CopyStepView::AcquisitionEnd]) + only_if(
        meta.has_transform,
        seq![CopyStepView::Transform],
    ) + only_if(meta.has_color_limits, seq![CopyStepView::ColorLimits]) + only_if(
        meta.has_intensity_limits,
        seq![CopyStepView::IntensityLimits],
    )
}

/// The step that writes which point cloud an image belongs to, if it belongs to one.
pub open spec fn reference_step(
    reference: Option<String>,
    map: Map<Seq<char>, Seq<char>>,
) -> Seq<CopyStepView> {
    match reference {
        Some(text) => seq![CopyStepView::PointcloudGuid(resolved(map, text@))],
        None => Seq::empty(),
    }
}

/// The step that carries a preview over, if there is one.
pub open spec fn preview_step(preview_mask: Option<bool>) -> Seq<CopyStepView> {
    match preview_mask {
        Some(mask) => seq![CopyStepView::Preview { mask }],
        None => Seq::empty(),
    }
}

/// The step that carries a projected image over, if there is one.
pub open spec fn projection_step(projection: Option<(ProjectionKind, bool)>) -> Seq<CopyStepView> {
    match projection {
        Some((kind, mask)) => seq![CopyStepView::Projection { kind, mask }],
        None => Seq::empty(),
    }
}

/// The steps that fill an image: what the source has, and no more, with the reference to
/// its point cloud brought up to date.
pub open spec fn image_steps(meta: ImageMeta, map: Map<Seq<char>, Seq<char>>) -> Seq<CopyStepView> {
    text_steps(meta.texts) + only_if(meta.has_acquisition, seq![CopyStepView::Acquisition])
        + reference_step(meta.pointcloud_guid, map) + only_if(
        meta.has_transform,
        seq![CopyStepView::Transform],
    ) + preview_step(meta.preview_mask) + projection_step(meta.projection) + seq![
        CopyStepView::Finish,
    ]
}

fn push_step(steps: &mut Vec<CopyStep>, step: CopyStep)
    ensures
        step_views(final(steps)@) == step_views(old(steps)@).push(step@),
{
    let ghost before = steps@;
    steps.push(step);
    assert(step_views(steps@) =~= step_views(before).push(step@));
}

fn push_text(steps: &mut Vec<CopyStep>, field: TextField, text: &Option<String>)
    ensures
        step_views(final(steps)@) == step_views(old(steps)@) + text_step(field, *text),
{
    let ghost before = step_views(steps@);
    match text {
        Some(written) => push_step(steps, CopyStep::Text(field, written.as_str().to_owned())),
        None => {},
    }
    assert(step_views(steps@) =~= before + text_step(field, *text));
}

fn push_if(steps: &mut Vec<CopyStep>, condition: bool, step: CopyStep)
    ensures
        step_views(final(steps)@) == step_views(old(steps)@) + only_if(condition, seq![step@]),
{
    let ghost before = step_views(steps@);
    if condition {
        push_step(steps, step);
    }
    assert(step_views(steps@) =~= before + only_if(condition, seq![step@]));
}

fn push_texts(steps: &mut Vec<CopyStep>, texts: &TextInfo)
    ensures
        step_views(final(steps)@) == step_views(old(steps)@) + text_steps(*texts),
{
    let ghost before = step_views(steps@);
    push_text(steps, TextField::Name, &texts.name);
    push_text(steps, TextField::Description, &texts.description);
    push_text(steps, TextField::SensorVendor, &texts.sensor_vendor);
    push_text(steps, TextField::SensorModel, &texts.sensor_model);
    push_text(steps, TextField::SensorSerial, &texts.sensor_serial);
    assert(step_views(steps@) =~= before + text_steps(*texts));
}

fn push_reference(steps: &mut Vec<CopyStep>, reference: &Option<String>, map: &GuidMap)
    ensures
        step_views(final(steps)@) == step_views(old(steps)@) + reference_step(*reference, map@),
{
    let ghost before = step_views(steps@);
    match reference {
        Some(text) => push_step(steps, CopyStep::PointcloudGuid(map.resolve(text.as_str()))),
        None => {},
    }
    assert(step_views(steps@) =~= before + reference_step(*reference, map@));
}

fn push_preview(steps: &mut Vec<CopyStep>, preview_mask: Option<bool>)
    ensures
        step_views(final(steps)@) == step_views(old(steps)@) + preview_step(preview_mask),
{
    let ghost before = step_views(steps@);
    match preview_mask {
        Some(mask) => push_step(steps, CopyStep::Preview { mask }),
        None => {},
    }
    assert(step_views(steps@) =~= before + preview_step(preview_mask));
}

fn push_projection(steps: &mut Vec<CopyStep>, projection: Option<(ProjectionKind, bool)>)
    ensures
        step_views(final(steps)@) == step_views(old(steps)@) + projection_step(projection),
{
    let ghost before = step_views(steps@);
    match projection {
        Some((kind, mask)) => push_step(steps, CopyStep::Projection { kind, mask }),
        None => {},
    }
    assert(step_views(steps@) =~= before + projection_step(projection));
}

/// The steps of the texts alone.
fn begin_steps(texts: &TextInfo) -> (steps: Vec<CopyStep>)
    ensures
        step_views(steps@) == text_steps(*texts),
{
    let mut steps: Vec<CopyStep> = Vec::new();
    let ghost none = step_views(steps@);
    push_texts(&mut steps, texts);
    assert(none + text_steps(*texts) =~= text_steps(*texts));
    steps
}

/// The steps that carry a scan's metadata over.
pub fn plan_scan(meta: &ScanMeta) -> (steps: Vec<CopyStep>)
    ensures
        step_views(steps@) == scan_steps(*meta),
{
    let mut steps = begin_steps(&meta.texts);
    push_if(&mut steps, meta.has_acquisition_start, CopyStep::AcquisitionStart);
    push_if(&mut steps, meta.has_acquisition_end, CopyStep::AcquisitionEnd);
    push_if(&mut steps, meta.has_transform, CopyStep::Transform);
    push_if(&mut steps, meta.has_color_limits, CopyStep::ColorLimits);
    push_if(&mut steps, meta.has_intensity_limits, CopyStep::IntensityLimits);
    steps
}

fn fill_image(meta: &ImageMeta, map: &GuidMap) -> (steps: Vec<CopyStep>)
    ensures
        step_views(steps@) == image_steps(*meta, map@),
{
    let mut steps = begin_steps(&meta.texts);
    push_if(&mut steps, meta.has_acquisition, CopyStep::Acquisition);
    push_reference(&mut steps, &meta.pointcloud_guid, map);
    push_if(&mut steps, meta.has_transform, CopyStep::Transform);
    push_preview(&mut steps, meta.preview_mask);
    push_projection(&mut steps, meta.projection);
    push_if(&mut steps, true, CopyStep::Finish);
    steps
}

/// The plan of an image: it keeps its identifier, or gets the spare one where it has
/// none.
pub fn plan_image(meta: &ImageMeta, spare_guid: &str, map: &GuidMap) -> (plan: ImagePlan)
    ensures
        plan.guid@ == match meta.guid {
            Some(text) => text@,
            None => spare_guid@,
        },
        step_views(plan.steps@) == image_steps(*meta, map@),
{
    let guid = match &meta.guid {
        Some(text) => text.as_str().to_owned(),
        None => spare_guid.to_owned(),
    };
    ImagePlan { guid, steps: fill_image(meta, map) }
}

/// Whether a plan is one of this image: its identifier is the image's own, or a random
/// one where it has none, and its steps are the image's.
pub open spec fn is_plan_of(
    plan: ImagePlan,
    meta: ImageMeta,
    map: Map<Seq<char>, Seq<char>>,
) -> bool {
    &&& match meta.guid {
        Some(text) => plan.guid@ == text@,
        None => is_guid_text(plan.guid@),
    }
    &&& step_views(plan.steps@) == image_steps(meta, map)
}

/// The plan of an image that gets a fresh identifier where it has none.
pub fn plan_fresh_image(meta: &ImageMeta, map: &GuidMap) -> (plan: ImagePlan)
    ensures
        is_plan_of(plan, *meta, map@),
{
    let spare = fresh_guid();
    plan_image(meta, spare.as_str(), map)
}

/// An image that belongs to a scan is written as one that belongs to what stands for the
/// scan in the result; its last step, and no other, completes it.
pub proof fn law_image_follows_its_scan(meta: ImageMeta, map: Map<Seq<char>, Seq<char>>)
    ensures
        ({
            let steps = image_steps(meta, map);
            &&& steps.last() == CopyStepView::Finish
            &&& forall|i: int|
                0 <= i < steps.len() - 1 ==> #[trigger] steps[i] != CopyStepView::Finish
            &&& forall|i: int|
                0 <= i < steps.len() && #[trigger] steps[i] is PointcloudGuid
                    ==> meta.pointcloud_guid is Some && steps[i]->PointcloudGuid_0 == resolved(
                    map,
                    meta.pointcloud_guid->0@,
                )
            &&& meta.pointcloud_guid is Some ==> steps.contains(
                CopyStepView::PointcloudGuid(resolved(map, meta.pointcloud_guid->0@)),
            )
        }),
{
    let steps = image_steps(meta, map);
    let texts = text_steps(meta.texts);
    let at = texts.len() + only_if(meta.has_acquisition, seq![CopyStepView::Acquisition]).len();
    if meta.pointcloud_guid is Some {
        assert(steps[at as int] == CopyStepView::PointcloudGuid(
            resolved(map, meta.pointcloud_guid->0@),
        ));
    }
    assert forall|i: int| 0 <= i < texts.len() implies #[trigger] texts[i] is Text by {}
    assert forall|i: int| 0 <= i < texts.len() implies steps[i] is Text by {
        assert(steps[i] == texts[i]);
    }
}

/// An image of a scan that got a new identifier is written as one that belongs to the
/// new one.
pub proof fn law_image_of_renamed_scan(
    meta: ImageMeta,
    map: Map<Seq<char>, Seq<char>>,
    source: Seq<char>,
    new: Seq<char>,
)
    requires
        meta.pointcloud_guid is Some,
        meta.pointcloud_guid->0@ == source,
    ensures
        image_steps(meta, map.insert(source, new)).contains(CopyStepView::PointcloudGuid(new)),
{
    law_image_follows_its_scan(meta, map.insert(source, new));
}

/// The text of a scan or an image in one of the fields, if it has it.
pub open spec fn text_in(texts: TextInfo, field: TextField) -> Option<Seq<char>> {
    let text = match field {
        TextField::Name => texts.name,
        TextField::Description => texts.description,
        TextField::SensorVendor => texts.sensor_vendor,
        TextField::SensorModel => texts.sensor_model,
        TextField::SensorSerial => texts.sensor_serial,
    };
    match text {
        Some(known) => Some(known@),
        None => None,
    }
}

/// Where a step stands among the steps of a plan.
pub open spec fn step_rank(step: CopyStepView) -> int {
    match step {
        CopyStepView::Text(TextField::Name, _) => 0,
        CopyStepView::Text(TextField::Description, _) => 1,
        CopyStepView::Text(TextField::SensorVendor, _) => 2,
        CopyStepView::Text(TextField::SensorModel, _) => 3,
        CopyStepView::Text(TextField::SensorSerial, _) => 4,
        CopyStepView::AcquisitionStart => 5,
        CopyStepView::AcquisitionEnd => 6,
        CopyStepView::Acquisition => 7,
        CopyStepView::PointcloudGuid(_) => 8,
        CopyStepView::Transform => 9,
        CopyStepView::ColorLimits => 10,
        CopyStepView::IntensityLimits => 11,
        CopyStepView::Preview { .. } => 12,
        CopyStepView::Projection { .. } => 13,
        CopyStepView::Finish => 14,
    }
}

/// Whether steps stand in their order, none of them twice.
pub open spec fn in_order(steps: Seq<CopyStepView>) -> bool {
    forall|i: int, j: int|
        0 <= i < j < steps.len() ==> step_rank(#[trigger] steps[i]) < step_rank(
            #[trigger] steps[j],
        )
}

/// Whether all steps come before those of this rank.
pub open spec fn before_rank(steps: Seq<CopyStepView>, rank: int) -> bool {
    forall|i: int| 0 <= i < steps.len() ==> step_rank(#[trigger] steps[i]) < rank
}

/// One more step of this rank, or none, keeps the order.
proof fn lemma_one_more_step(steps: Seq<CopyStepView>, more: Seq<CopyStepView>, rank: int)
    requires
        in_order(steps),
        before_rank(steps, rank),
        more.len() <= 1,
        more.len() == 1 ==> step_rank(more[0]) == rank,
    ensures
        in_order(steps + more),
        before_rank(steps + more, rank + 1),
{
    let sum = steps + more;
    assert forall|i: int| 0 <= i < sum.len() implies step_rank(#[trigger] sum[i]) < rank + 1 by {
        if i < steps.len() {
            assert(sum[i] == steps[i]);
        } else {
            assert(sum[i] == more[0]);
        }
    }
    assert forall|i: int, j: int| 0 <= i < j < sum.len() implies step_rank(#[trigger] sum[i])
        < step_rank(#[trigger] sum[j]) by {
        assert(sum[i] == steps[i]);
        if j < steps.len() {
            assert(sum[j] == steps[j]);
        } else {
            assert(sum[j] == more[0]);
        }
    }
}

proof fn lemma_before_later_rank(steps: Seq<CopyStepView>, rank: int, later: int)
    requires
        before_rank(steps, rank),
        rank <= later,
    ensures
        before_rank(steps, later),
{
}

/// What one optional step amounts to.
proof fn lemma_only_step(condition: bool, step: CopyStepView, other: CopyStepView)
    ensures
        only_if(condition, seq![step]).contains(other) <==> condition && other == step,
{
    if condition {
        assert(only_if(condition, seq![step])[0] == step);
    }
}

proof fn lemma_text_step(field: TextField, text: Option<String>, step: CopyStepView)
    ensures
        text_step(field, text).contains(step) <==> text is Some && step == CopyStepView::Text(
            field,
            text->0@,
        ),
{
    if text is Some {
        assert(text_step(field, text)[0] == CopyStepView::Text(field, text->0@));
    }
}

proof fn lemma_text_steps(texts: TextInfo, step: CopyStepView)
    ensures
        in_order(text_steps(texts)),
        before_rank(text_steps(texts), 5),
        text_steps(texts).contains(step) <==> step is Text && text_in(texts, step->Text_0) == Some(
            step->Text_1,
        ),
{
    let a = text_step(TextField::Name, texts.name);
    let b = text_step(TextField::Description, texts.description);
    let c = text_step(TextField::SensorVendor, texts.sensor_vendor);
    let d = text_step(TextField::SensorModel, texts.sensor_model);
    let e = text_step(TextField::SensorSerial, texts.sensor_serial);
    lemma_one_more_step(Seq::empty(), a, 0);
    assert(Seq::empty() + a =~= a);
    lemma_one_more_step(a, b, 1);
    lemma_one_more_step(a + b, c, 2);
    lemma_one_more_step(a + b + c, d, 3);
    lemma_one_more_step(a + b + c + d, e, 4);
    lemma_text_step(TextField::Name, texts.name, step);
    lemma_text_step(TextField::Description, texts.description, step);
    lemma_text_step(TextField::SensorVendor, texts.sensor_vendor, step);
    lemma_text_step(TextField::SensorModel, texts.sensor_model, step);
    lemma_text_step(TextField::SensorSerial, texts.sensor_serial, step);
    lemma_sum_holds(a, b, step);
    lemma_sum_holds(a + b, c, step);
    lemma_sum_holds(a + b + c, d, step);
    lemma_sum_holds(a + b + c + d, e, step);
}

/// A scan's plan holds a step exactly if the scan has what the step carries over, with
/// the very text where it is a text; each once, and in a fixed order.
pub proof fn law_scan_keeps_what_it_has(meta: ScanMeta, step: CopyStepView)
    ensures
        scan_steps(meta).contains(step) <==> match step {
            CopyStepView::Text(field, text) => text_in(meta.texts, field) == Some(text),
            CopyStepView::AcquisitionStart => meta.has_acquisition_start,
            CopyStepView::AcquisitionEnd => meta.has_acquisition_end,
            CopyStepView::Transform => meta.has_transform,
            CopyStepView::ColorLimits => meta.has_color_limits,
            CopyStepView::IntensityLimits => meta.has_intensity_limits,
            _ => false,
        },
        in_order(scan_steps(meta)),
{
    let t = text_steps(meta.texts);
    let a = only_if(meta.has_acquisition_start, seq![CopyStepView::AcquisitionStart]);
    let b = only_if(meta.has_acquisition_end, seq![CopyStepView::AcquisitionEnd]);
    let c = only_if(meta.has_transform, seq![CopyStepView::Transform]);
    let d = only_if(meta.has_color_limits, seq![CopyStepView::ColorLimits]);
    let e = only_if(meta.has_intensity_limits, seq![CopyStepView::IntensityLimits]);
    lemma_text_steps(meta.texts, step);
    lemma_one_more_step(t, a, 5);
    lemma_one_more_step(t + a, b, 6);
    lemma_before_later_rank(t + a + b, 7, 9);
    lemma_one_more_step(t + a + b, c, 9);
    lemma_one_more_step(t + a + b + c, d, 10);
    lemma_one_more_step(t + a + b + c + d, e, 11);
    lemma_only_step(meta.has_acquisition_start, CopyStepView::AcquisitionStart, step);
    lemma_only_step(meta.has_acquisition_end, CopyStepView::AcquisitionEnd, step);
    lemma_only_step(meta.has_transform, CopyStepView::Transform, step);
    lemma_only_step(meta.has_color_limits, CopyStepView::ColorLimits, step);
    lemma_only_step(meta.has_intensity_limits, CopyStepView::IntensityLimits, step);
    lemma_sum_holds(t, a, step);
    lemma_sum_holds(t + a, b, step);
    lemma_sum_holds(t + a + b, c, step);
    lemma_sum_holds(t + a + b + c, d, step);
    lemma_sum_holds(t + a + b + c + d, e, step);
}

/// An image's plan holds a step exactly if the image has what the step carries over: its
/// texts letter by letter, its projection with its kind and mask, its preview with its
/// mask, its time, its pose. An image that belongs to a scan is written as one that
/// belongs to what stands for the scan. Each step is there once, in a fixed order, and
/// the last one completes the image.
pub proof fn law_image_keeps_what_it_has(
    meta: ImageMeta,
    map: Map<Seq<char>, Seq<char>>,
    step: CopyStepView,
)
    ensures
        image_steps(meta, map).contains(step) <==> match step {
            CopyStepView::Text(field, text) => text_in(meta.texts, field) == Some(text),
            CopyStepView::Acquisition => meta.has_acquisition,
            CopyStepView::PointcloudGuid(guid) => meta.pointcloud_guid is Some && guid == (
            if map.contains_key(meta.pointcloud_guid->0@) {
                map[meta.pointcloud_guid->0@]
            } else {
                meta.pointcloud_guid->0@
            }),
            CopyStepView::Transform => meta.has_transform,
            CopyStepView::Preview { mask } => meta.preview_mask == Some(mask),
            CopyStepView::Projection { kind, mask } => meta.projection == Some((kind, mask)),
            CopyStepView::Finish => true,
            _ => false,
        },
        in_order(image_steps(meta, map)),
{
    let t = text_steps(meta.texts);
    let a = only_if(meta.has_acquisition, seq![CopyStepView::Acquisition]);
    let b = reference_step(meta.pointcloud_guid, map);
    let c = only_if(meta.has_transform, seq![CopyStepView::Transform]);
    let d = preview_step(meta.preview_mask);
    let e = projection_step(meta.projection);
    let f = seq![CopyStepView::Finish];
    lemma_text_steps(meta.texts, step);
    lemma_before_later_rank(t, 5, 7);
    lemma_one_more_step(t, a, 7);
    lemma_one_more_step(t + a, b, 8);
    lemma_one_more_step(t + a + b, c, 9);
    lemma_before_later_rank(t + a + b + c, 10, 12);
    lemma_one_more_step(t + a + b + c, d, 12);
    lemma_one_more_step(t + a + b + c + d, e, 13);
    lemma_one_more_step(t + a + b + c + d + e, f, 14);
    lemma_only_step(meta.has_acquisition, CopyStepView::Acquisition, step);
    lemma_only_step(meta.has_transform, CopyStepView::Transform, step);
    lemma_only_step(true, CopyStepView::Finish, step);
    if meta.pointcloud_guid is Some {
        assert(b[0] == CopyStepView::PointcloudGuid(resolved(map, meta.pointcloud_guid->0@)));
    }
    if meta.preview_mask is Some {
        assert(d[0] == CopyStepView::Preview { mask: meta.preview_mask->0 });
    }
    if meta.projection is Some {
        let (kind, mask) = meta.projection->0;
        assert(e[0] == CopyStepView::Projection { kind, mask });
    }
    lemma_sum_holds(t, a, step);
    lemma_sum_holds(t + a, b, step);
    lemma_sum_holds(t + a + b, c, step);
    lemma_sum_holds(t + a + b + c, d, step);
    lemma_sum_holds(t + a + b + c + d, e, step);
    lemma_sum_holds(t + a + b + c + d + e, f, step);
}

/// A plan is looked at step by step: each step by its kind, with its own text, mask and
/// projection.
pub proof fn law_steps_are_seen_as_they_are(steps: Seq<CopyStep>, i: int)
    requires
        0 <= i < steps.len(),
    ensures
        step_views(steps).len() == steps.len(),
        ({
            let step = steps[i];
            let seen = step_views(steps)[i];
            &&& step is Text <==> seen is Text
            &&& step is Text ==> seen->Text_0 == step->Text_0 && seen->Text_1 == step->Text_1@
            &&& step is Acquisition <==> seen is Acquisition
            &&& step is AcquisitionStart <==> seen is AcquisitionStart
            &&& step is AcquisitionEnd <==> seen is AcquisitionEnd
            &&& step is PointcloudGuid <==> seen is PointcloudGuid
            &&& step is PointcloudGuid ==> seen->PointcloudGuid_0 == step->PointcloudGuid_0@
            &&& step is Transform <==> seen is Transform
            &&& step is ColorLimits <==> seen is ColorLimits
            &&& step is IntensityLimits <==> seen is IntensityLimits
            &&& step is Preview <==> seen is Preview
            &&& step is Preview ==> seen->Preview_mask == step->Preview_mask
            &&& step is Projection <==> seen is Projection
            &&& step is Projection ==> seen->kind == step->kind && seen->Projection_mask
                == step->Projection_mask
            &&& step is Finish <==> seen is Finish
        }),
{
}

} // verus!
