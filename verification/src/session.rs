//! What the user has chosen and sees: the source, the settings, the log and the result.

use crate::duration::clock_text;
use crate::duration::format_duration;
use crate::duration::nanoseconds;
use crate::duration::whole_seconds;
use crate::message::color_of;
use crate::message::LineColor;
use crate::pipeline::PointCloudFormat;
use crate::pipeline::ThinningMethod;
use crate::record::only_if;
use crate::record::ScanSummary;
use crate::run::ProgressMark;
use crate::text::between;
use crate::text::contains_text;
use crate::text::decimal;
use crate::text::ends_in;
use crate::text::framed;
use crate::text::holds_text;
use crate::text::labelled;
use crate::text::law_holding_is_being_made_of;
use crate::text::lemma_ends_in;
use crate::text::lemma_same_around;
use crate::text::push_decimal;
use crate::text::same_around;
use std::time::Duration;
use vstd::prelude::*;

verus! {

/// A message from the worker to the session. Factors with a fraction come as texts.
#[derive(Debug)]
pub enum WorkerMsg {
    /// A line for the log.
    Log(String),
    /// How far the run has come.
    Progress(ProgressMark),
    /// The run is done. The scale comes along if it is not one.
    Finished { result_point_count: usize, elapsed: Duration, scale: Option<String> },
    /// The run failed.
    Error(String),
}

/// The settings with which a run starts.
#[derive(Clone, Copy, Debug, PartialEq, Eq, Structural)]
pub struct RunRequest {
    pub use_thinning: bool,
    pub use_scaling: bool,
    pub grid_stride_k: usize,
    pub thinning_method: ThinningMethod,
}

/// The state of the program between two frames.
#[derive(Debug)]
pub struct Session {
    pub use_thinning: bool,
    pub use_scaling: bool,
    pub grid_stride_k: usize,
    pub thinning_method: ThinningMethod,
    pub log: String,
    pub source_version: Option<String>,
    pub source_point_count: usize,
    pub result_point_count: usize,
    pub progress: ProgressMark,
    pub elapsed_time: Duration,
    pub is_processing: bool,
}

/// The description of an E57 file.
pub open spec fn e57_version(scans: usize, images: usize, is_structured: bool) -> Seq<char> {
    let s = decimal(scans as nat);
    let i = decimal(images as nat);
    if is_structured {
        "E57 (структурированный, сканов: "@ + s + ", панорам: "@ + i + ")"@
    } else if images > 0 {
        "E57 (сканов: "@ + s + ", панорам: "@ + i + ")"@
    } else if scans > 1 {
        "E57 (сканов: "@ + s + ")"@
    } else {
        "E57"@
    }
}

/// The description of a LAS file.
pub open spec fn las_version(major: u8, minor: u8) -> Seq<char> {
    "LAS "@ + decimal(major as nat) + "."@ + decimal(minor as nat)
}

/// The description of an E57 file.
pub fn e57_version_text(scans: usize, images: usize, is_structured: bool) -> (text: String)
    ensures
        text@ == e57_version(scans, images, is_structured),
{
    if !is_structured && images == 0 && scans <= 1 {
        return "E57".to_owned();
    }
    let mut text = if is_structured {
        "E57 (структурированный, сканов: ".to_owned()
    } else {
        "E57 (сканов: ".to_owned()
    };
    push_decimal(&mut text, scans as u64);
    if is_structured || images > 0 {
        text.append(", панорам: ");
        push_decimal(&mut text, images as u64);
    }
    text.append(")");
    text
}

/// The description of a LAS file.
pub fn las_version_text(major: u8, minor: u8) -> (text: String)
    ensures
        text@ == las_version(major, minor),
{
    let mut text = "LAS ".to_owned();
    push_decimal(&mut text, major as u64);
    text.append(".");
    push_decimal(&mut text, minor as u64);
    text
}

/// Whether a description is that of a structured file.
pub open spec fn tells_structure(version: Option<Seq<char>>) -> bool {
    match version {
        Some(text) => holds_text(text, "структурированный"@),
        None => false,
    }
}

/// What a message adds to the log.
pub open spec fn log_entry(message: WorkerMsg) -> Seq<char> {
    match message {
        WorkerMsg::Log(line) => line@ + "\n"@,
        WorkerMsg::Progress(_) => Seq::empty(),
        WorkerMsg::Finished { scale, .. } => "✅ Обработка завершена!\n"@ + (match scale {
            Some(factor) => "📏 Применён коэффициент масштабирования: "@ + factor@ + "x\n"@,
            None => Seq::empty(),
        }),
        WorkerMsg::Error(text) => "❌ Ошибка: "@ + text@ + "\n"@,
    }
}

/// Whether a message ends the run.
pub open spec fn ends_run(message: WorkerMsg) -> bool {
    message is Finished || message is Error
}

/// Whether a picked file is tried as E57: where its name says so, or says nothing.
pub fn tries_e57(hint: Option<PointCloudFormat>) -> (tries: bool)
    ensures
        tries == (hint == Some(PointCloudFormat::E57) || hint is None),
{
    match hint {
        Some(PointCloudFormat::E57) => true,
        Some(PointCloudFormat::Las) => false,
        None => true,
    }
}

impl Default for Session {
    fn default() -> (session: Session)
        ensures
            !session.use_thinning,
            !session.use_scaling,
            session.grid_stride_k == 2,
            session.thinning_method == ThinningMethod::VoxelGrid,
            session.log@ == Seq::<char>::empty(),
            session.source_version is None,
            session.source_point_count == 0,
            session.result_point_count == 0,
            session.progress == ProgressMark::Percent(0),
            nanoseconds(session.elapsed_time) == 0,
            !session.is_processing,
    {
        Session {
            use_thinning: false,
            use_scaling: false,
            grid_stride_k: 2,
            thinning_method: ThinningMethod::VoxelGrid,
            log: String::new(),
            source_version: None,
            source_point_count: 0,
            result_point_count: 0,
            progress: ProgressMark::Percent(0),
            elapsed_time: Duration::from_secs(0),
            is_processing: false,
        }
    }
}

impl Session {
    /// The description of the source, if there is one.
    pub open spec fn version(self) -> Option<Seq<char>> {
        match self.source_version {
            Some(text) => Some(text@),
            None => None,
        }
    }

    /// Whether nothing but the description of the source, its size and the method
    /// differs.
    pub open spec fn same_but_source(self, other: Session) -> bool {
        &&& self.use_thinning == other.use_thinning
        &&& self.use_scaling == other.use_scaling
        &&& self.grid_stride_k == other.grid_stride_k
        &&& self.log == other.log
        &&& self.result_point_count == other.result_point_count
        &&& self.progress == other.progress
        &&& self.elapsed_time == other.elapsed_time
        &&& self.is_processing == other.is_processing
    }

    /// Forgets the description of the source: another file was picked.
    pub fn pick_source(&mut self)
        ensures
            final(self).source_version is None,
            final(self).source_point_count == 0,
            final(self).thinning_method == old(self).thinning_method,
            final(self).same_but_source(*old(self)),
    {
        self.source_version = None;
        self.source_point_count = 0;
    }

    /// Takes an E57 file as the source. A structured one is thinned by its grid unless
    /// the user decides otherwise.
    pub fn adopt_e57(&mut self, scans: usize, images: usize, summary: ScanSummary)
        ensures
            final(self).version() == Some(e57_version(scans, images, summary.is_structured)),
            final(self).source_point_count == summary.total_points as usize,
            final(self).thinning_method == if summary.is_structured {
                ThinningMethod::GridStride
            } else {
                ThinningMethod::VoxelGrid
            },
            final(self).same_but_source(*old(self)),
    {
        self.source_version = Some(e57_version_text(scans, images, summary.is_structured));
        self.source_point_count = #[verifier::truncate] (summary.total_points as usize);
        self.thinning_method = if summary.is_structured {
            ThinningMethod::GridStride
        } else {
            ThinningMethod::VoxelGrid
        };
    }

    /// Whether the picked file is tried as LAS: where it was not taken as E57.
    pub fn tries_las(&self) -> (tries: bool)
        ensures
            tries == self.source_version is None,
    {
        self.source_version.is_none()
    }

    /// Takes a LAS file as the source.
    pub fn adopt_las(&mut self, major: u8, minor: u8, points: u64)
        ensures
            final(self).version() == Some(las_version(major, minor)),
            final(self).source_point_count == points as usize,
            final(self).thinning_method == ThinningMethod::VoxelGrid,
            final(self).same_but_source(*old(self)),
    {
        self.source_version = Some(las_version_text(major, minor));
        self.source_point_count = #[verifier::truncate] (points as usize);
        self.thinning_method = ThinningMethod::VoxelGrid;
    }

    /// Whether the source is a structured E57 file.
    pub fn is_structured_source(&self) -> (structured: bool)
        ensures
            structured == tells_structure(self.version()),
    {
        match &self.source_version {
            Some(text) => contains_text(text.as_str(), "структурированный"),
            None => false,
        }
    }

    /// Falls back to cubes where the source has no grid. Tells whether the source has one.
    pub fn settle_method(&mut self) -> (structured: bool)
        ensures
            structured == tells_structure(old(self).version()),
            final(self).thinning_method == if !structured {
                ThinningMethod::VoxelGrid
            } else {
                old(self).thinning_method
            },
            final(self).thinning_method == ThinningMethod::GridStride ==> tells_structure(
                final(self).version(),
            ),
            final(self).source_version == old(self).source_version,
            final(self).source_point_count == old(self).source_point_count,
            final(self).same_but_source(*old(self)),
    {
        let structured = self.is_structured_source();
        if !structured {
            self.thinning_method = ThinningMethod::VoxelGrid;
        }
        structured
    }

    /// Whether thinning goes by the grid of the source.
    pub fn thins_by_grid(&self) -> (by_grid: bool)
        ensures
            by_grid == (self.thinning_method == ThinningMethod::GridStride && tells_structure(
                self.version(),
            )),
    {
        self.thinning_method == ThinningMethod::GridStride && self.is_structured_source()
    }

    /// Whether a run can start: there is a source, a target that is another file, and no
    /// run under way.
    pub fn can_process(&self, has_input: bool, has_output: bool, same_file: bool) -> (can: bool)
        ensures
            can == (has_input && has_output && !same_file && !self.is_processing),
    {
        has_input && has_output && !same_file && !self.is_processing
    }

    /// Starts a run with the settings as they are, and with cubes where the source has no
    /// grid.
    pub fn begin(&mut self) -> (request: RunRequest)
        ensures
            request == (RunRequest {
                use_thinning: old(self).use_thinning,
                use_scaling: old(self).use_scaling,
                grid_stride_k: old(self).grid_stride_k,
                thinning_method: final(self).thinning_method,
            }),
            request.thinning_method == if tells_structure(old(self).version()) {
                old(self).thinning_method
            } else {
                ThinningMethod::VoxelGrid
            },
            final(self).log@ == Seq::<char>::empty(),
            final(self).result_point_count == 0,
            final(self).progress == ProgressMark::Percent(0),
            final(self).is_processing,
            final(self).use_thinning == old(self).use_thinning,
            final(self).use_scaling == old(self).use_scaling,
            final(self).grid_stride_k == old(self).grid_stride_k,
            final(self).source_version == old(self).source_version,
            final(self).source_point_count == old(self).source_point_count,
            final(self).elapsed_time == old(self).elapsed_time,
    {
        let _structured = self.settle_method();
        self.log = String::new();
        self.result_point_count = 0;
        self.progress = ProgressMark::Percent(0);
        self.is_processing = true;
        RunRequest {
            use_thinning: self.use_thinning,
            use_scaling: self.use_scaling,
            grid_stride_k: self.grid_stride_k,
            thinning_method: self.thinning_method,
        }
    }

    /// Takes a message from the worker.
    pub fn receive(&mut self, message: WorkerMsg)
        ensures
            final(self).log@ == old(self).log@ + log_entry(message),
            final(self).progress == match message {
                WorkerMsg::Progress(mark) => mark,
                WorkerMsg::Finished { .. } => ProgressMark::Percent(100),
                _ => old(self).progress,
            },
            final(self).result_point_count == match message {
                WorkerMsg::Finished { result_point_count, .. } => result_point_count,
                _ => old(self).result_point_count,
            },
            final(self).elapsed_time == match message {
                WorkerMsg::Finished { elapsed, .. } => elapsed,
                _ => old(self).elapsed_time,
            },
            final(self).is_processing == (old(self).is_processing && !ends_run(message)),
            final(self).use_thinning == old(self).use_thinning,
            final(self).use_scaling == old(self).use_scaling,
            final(self).grid_stride_k == old(self).grid_stride_k,
            final(self).thinning_method == old(self).thinning_method,
            final(self).source_version == old(self).source_version,
            final(self).source_point_count == old(self).source_point_count,
    {
        match message {
            WorkerMsg::Log(line) => {
                self.log.append(line.as_str());
                self.log.append("\n");
            },
            WorkerMsg::Progress(mark) => {
                self.progress = mark;
            },
            WorkerMsg::Finished { result_point_count, elapsed, scale } => {
                self.result_point_count = result_point_count;
                self.elapsed_time = elapsed;
                self.progress = ProgressMark::Percent(100);
                self.log.append("✅ Обработка завершена!\n");
                match scale {
                    Some(factor) => {
                        self.log.append("📏 Применён коэффициент масштабирования: ");
                        self.log.append(factor.as_str());
                        self.log.append("x\n");
                    },
                    None => {},
                }
                self.is_processing = false;
            },
            WorkerMsg::Error(text) => {
                self.log.append("❌ Ошибка: ");
                self.log.append(text.as_str());
                self.log.append("\n");
                self.is_processing = false;
            },
        }
        assert(self.log@ =~= old(self).log@ + log_entry(message));
    }
}

/// The texts of a list of labels.
pub open spec fn label_texts(labels: Seq<String>) -> Seq<Seq<char>> {
    labels.map_values(|label: String| label@)
}

/// The label that describes the source.
pub open spec fn version_label(version: Option<Seq<char>>) -> Seq<char> {
    match version {
        Some(text) => "📦 Формат исходного файла: "@ + text,
        None => "📦 Формат исходного файла: не определён"@,
    }
}

/// The labels that sum up a session: the source and its size, then, once there is a
/// result, its size, by how much it shrank where thinning is on, how it was scaled where
/// it was, and how long that took.
pub open spec fn summary_labels(
    session: Session,
    reduction: Seq<char>,
    scale: Option<Seq<char>>,
) -> Seq<Seq<char>> {
    let has_result = session.result_point_count > 0;
    seq![version_label(session.version())] + only_if(
        session.source_point_count > 0,
        seq![
            "🔢 Всего точек/ячеек в исходном файле: "@ + decimal(
                session.source_point_count as nat,
            ),
        ],
    ) + only_if(
        has_result,
        seq!["✅ Активных точек в результате: "@ + decimal(session.result_point_count as nat)],
    ) + only_if(
        has_result && session.use_thinning,
        seq!["📉 Сокращение данных: "@ + reduction + "%"@],
    ) + (match scale {
        Some(factor) => only_if(
            has_result && session.use_scaling,
            seq!["📏 Масштаб: "@ + factor + "x"@],
        ),
        None => Seq::empty(),
    }) + only_if(
        has_result,
        seq!["⏱️ Время выполнения: "@ + clock_text(whole_seconds(session.elapsed_time))],
    )
}

fn push_label(labels: &mut Vec<String>, label: String)
    ensures
        label_texts(final(labels)@) == label_texts(old(labels)@).push(label@),
{
    let ghost before = labels@;
    labels.push(label);
    assert(label_texts(labels@) =~= label_texts(before).push(label@));
}

impl Session {
    /// The labels that sum up the session. The reduction in percent, and the scale where
    /// it is not one, come as texts.
    pub fn summary(&self, reduction: &str, scale: Option<&str>) -> (labels: Vec<String>)
        ensures
            label_texts(labels@) == summary_labels(
                *self,
                reduction@,
                match scale {
                    Some(factor) => Some(factor@),
                    None => None,
                },
            ),
    {
        let mut labels: Vec<String> = Vec::new();
        let version = match &self.source_version {
            Some(text) => {
                let mut label = "📦 Формат исходного файла: ".to_owned();
                label.append(text.as_str());
                label
            },
            None => "📦 Формат исходного файла: не определён".to_owned(),
        };
        push_label(&mut labels, version);
        if self.source_point_count > 0 {
            push_label(
                &mut labels,
                labelled("🔢 Всего точек/ячеек в исходном файле: ", self.source_point_count),
            );
        }
        if self.result_point_count > 0 {
            push_label(
                &mut labels,
                labelled("✅ Активных точек в результате: ", self.result_point_count),
            );
            if self.use_thinning {
                push_label(&mut labels, framed("📉 Сокращение данных: ", reduction, "%"));
            }
            match scale {
                Some(factor) => {
                    if self.use_scaling {
                        push_label(&mut labels, framed("📏 Масштаб: ", factor, "x"));
                    }
                },
                None => {},
            }
            let mut time = "⏱️ Время выполнения: ".to_owned();
            time.append(format_duration(self.elapsed_time).as_str());
            push_label(&mut labels, time);
        }
        assert(label_texts(labels@) =~= summary_labels(
            *self,
            reduction@,
            match scale {
                Some(factor) => Some(factor@),
                None => None,
            },
        ));
        labels
    }
}

/// The labels that explain what a stride of `k` does to a grid, with the reduction in
/// percent as text.
pub fn grid_labels(k: usize, percent: &str) -> (labels: Vec<String>)
    requires
        k * k <= usize::MAX,
    ensures
        label_texts(labels@) == seq![
            "• Прореживание: каждая "@ + decimal(k as nat) + "-я строка и "@ + decimal(k as nat)
                + "-я колонка матрицы скана"@,
            "• Точек и размер файла: В "@ + decimal((k * k) as nat) + " РАЗ МЕНЬШЕ (-"@ + percent@
                + "%)"@,
        ],
{
    assert(k * k >= 0) by (nonlinear_arith);
    let factor: usize = k * k;
    let mut rows = labelled("• Прореживание: каждая ", k);
    rows.append("-я строка и ");
    push_decimal(&mut rows, k as u64);
    rows.append("-я колонка матрицы скана");
    let mut size = labelled("• Точек и размер файла: В ", factor);
    size.append(" РАЗ МЕНЬШЕ (-");
    size.append(percent);
    size.append("%)");
    let ghost texts = seq![rows@, size@];
    let mut labels: Vec<String> = Vec::new();
    push_label(&mut labels, rows);
    push_label(&mut labels, size);
    assert(label_texts(labels@) =~= texts);
    labels
}

/// The description of an E57 file tells exactly whether the file is structured.
pub proof fn law_e57_version_tells_structure(scans: usize, images: usize, is_structured: bool)
    ensures
        tells_structure(Some(e57_version(scans, images, is_structured))) == is_structured,
{
    reveal_strlit("структурированный");
    reveal_strlit("E57 (структурированный, сканов: ");
    reveal_strlit("E57 (сканов: ");
    reveal_strlit(", панорам: ");
    reveal_strlit(")");
    reveal_strlit("E57");
    let needle = "структурированный"@;
    let text = e57_version(scans, images, is_structured);
    let s = decimal(scans as nat);
    let i = decimal(images as nat);
    crate::text::lemma_decimal_digits(scans as nat);
    crate::text::lemma_decimal_digits(images as nat);
    if is_structured {
        assert(text.subrange(5, 5int + needle.len()) =~= needle);
        assert(crate::text::occurs_at(text, needle, 5));
    } else {
        assert(needle[3] == 'у');
        assert forall|j: int| 0 <= j < text.len() implies text[j] != 'у' by {
            let head = "E57 (сканов: "@;
            if images > 0 {
                let middle = ", панорам: "@;
                if head.len() <= j < head.len() + s.len() {
                    assert(text[j] == s[j - head.len()]);
                } else if head.len() + s.len() + middle.len() <= j < text.len() - 1 {
                    assert(text[j] == i[j - head.len() - s.len() - middle.len()]);
                }
            } else if scans > 1 {
                if head.len() <= j < head.len() + s.len() {
                    assert(text[j] == s[j - head.len()]);
                }
            }
        }
        crate::text::lemma_foreign_character(text, needle, 3);
    }
}

/// The description of a LAS file never tells of structure.
pub proof fn law_las_version_tells_no_structure(major: u8, minor: u8)
    ensures
        !tells_structure(Some(las_version(major, minor))),
{
    reveal_strlit("структурированный");
    reveal_strlit("LAS ");
    reveal_strlit(".");
    let needle = "структурированный"@;
    let text = las_version(major, minor);
    let a = decimal(major as nat);
    let b = decimal(minor as nat);
    crate::text::lemma_decimal_digits(major as nat);
    crate::text::lemma_decimal_digits(minor as nat);
    assert forall|j: int| 0 <= j < text.len() implies text[j] != needle[3] by {
        if 4 <= j < 4 + a.len() {
            assert(text[j] == a[j - 4]);
        } else if j >= 5 + a.len() {
            assert(text[j] == b[j - 5 - a.len()]);
        }
    }
    crate::text::lemma_foreign_character(text, needle, 3);
}

/// The log after a series of messages.
pub open spec fn log_after(log: Seq<char>, messages: Seq<WorkerMsg>) -> Seq<char>
    decreases messages.len(),
{
    if messages.len() == 0 {
        log
    } else {
        log_after(log, messages.drop_last()) + log_entry(messages.last())
    }
}

/// Whether a run is under way after a series of messages.
pub open spec fn processing_after(processing: bool, messages: Seq<WorkerMsg>) -> bool
    decreases messages.len(),
{
    if messages.len() == 0 {
        processing
    } else {
        processing_after(processing, messages.drop_last()) && !ends_run(messages.last())
    }
}

/// Messages only add to the log: what was there stays in front.
pub proof fn law_log_only_grows(log: Seq<char>, messages: Seq<WorkerMsg>)
    ensures
        log.is_prefix_of(log_after(log, messages)),
    decreases messages.len(),
{
    if messages.len() > 0 {
        law_log_only_grows(log, messages.drop_last());
    }
}

/// A run that is under way goes on until a message says that it is done or has failed.
pub proof fn law_run_goes_on_until_told(messages: Seq<WorkerMsg>)
    ensures
        processing_after(true, messages) <==> forall|i: int|
            0 <= i < messages.len() ==> !ends_run(#[trigger] messages[i]),
    decreases messages.len(),
{
    if messages.len() > 0 {
        let rest = messages.drop_last();
        law_run_goes_on_until_told(rest);
        assert(forall|i: int| 0 <= i < rest.len() ==> rest[i] == messages[i]);
        assert(messages.last() == messages[messages.len() - 1]);
        if forall|i: int| 0 <= i < rest.len() ==> !ends_run(#[trigger] rest[i]) {
            assert forall|i: int| 0 <= i < rest.len() implies !ends_run(#[trigger] messages[i]) by {
                assert(!ends_run(rest[i]));
            }
        }
        if forall|i: int| 0 <= i < messages.len() ==> !ends_run(#[trigger] messages[i]) {
            assert forall|i: int| 0 <= i < rest.len() implies !ends_run(#[trigger] rest[i]) by {
                assert(!ends_run(messages[i]));
            }
        }
    }
}

/// The line that reports a failure is shown in red, whatever the failure says.
pub proof fn law_failure_is_red(text: Seq<char>)
    ensures
        color_of("❌ Ошибка: "@ + text) == LineColor::Red,
{
    reveal_strlit("❌ Ошибка: ");
    reveal_strlit("❌");
    let line = "❌ Ошибка: "@ + text;
    assert(line.subrange(0, 1) =~= "❌"@);
    assert(crate::text::occurs_at(line, "❌"@, 0));
}

/// The descriptions of two structured E57 files are the same but for the number of scans or
/// of images.
pub proof fn law_structured_versions_differ_in_their_numbers(a: usize, b: usize, c: usize)
    ensures
        same_around(
            e57_version(a, c, true),
            decimal(a as nat),
            e57_version(b, c, true),
            decimal(b as nat),
        ),
        same_around(
            e57_version(c, a, true),
            decimal(a as nat),
            e57_version(c, b, true),
            decimal(b as nat),
        ),
{
    lemma_same_around(
        e57_version(a, c, true),
        decimal(a as nat),
        e57_version(b, c, true),
        decimal(b as nat),
        "E57 (структурированный, сканов: "@,
        ", панорам: "@ + decimal(c as nat) + ")"@,
    );
    lemma_same_around(
        e57_version(c, a, true),
        decimal(a as nat),
        e57_version(c, b, true),
        decimal(b as nat),
        "E57 (структурированный, сканов: "@ + decimal(c as nat) + ", панорам: "@,
        ")"@,
    );
}

/// The descriptions of two E57 files without structure that have images are the same but
/// for the number of scans or of images.
pub proof fn law_versions_with_images_differ_in_their_numbers(
    a: usize,
    b: usize,
    c: usize,
    e: usize,
)
    requires
        c > 0,
        e > 0,
    ensures
        same_around(
            e57_version(a, c, false),
            decimal(a as nat),
            e57_version(b, c, false),
            decimal(b as nat),
        ),
        same_around(
            e57_version(a, c, false),
            decimal(c as nat),
            e57_version(a, e, false),
            decimal(e as nat),
        ),
{
    lemma_same_around(
        e57_version(a, c, false),
        decimal(a as nat),
        e57_version(b, c, false),
        decimal(b as nat),
        "E57 (сканов: "@,
        ", панорам: "@ + decimal(c as nat) + ")"@,
    );
    lemma_same_around(
        e57_version(a, c, false),
        decimal(c as nat),
        e57_version(a, e, false),
        decimal(e as nat),
        "E57 (сканов: "@ + decimal(a as nat) + ", панорам: "@,
        ")"@,
    );
}

/// The descriptions of two E57 files of several scans, without structure and images, are
/// the same but for the number of scans.
pub proof fn law_versions_without_images_differ_in_their_numbers(a: usize, b: usize)
    requires
        a > 1,
        b > 1,
    ensures
        same_around(
            e57_version(a, 0, false),
            decimal(a as nat),
            e57_version(b, 0, false),
            decimal(b as nat),
        ),
{
    lemma_same_around(
        e57_version(a, 0, false),
        decimal(a as nat),
        e57_version(b, 0, false),
        decimal(b as nat),
        "E57 (сканов: "@,
        ")"@,
    );
}

/// The descriptions of two LAS files are the same but for the version numbers.
pub proof fn law_las_versions_differ_in_their_numbers(a: u8, b: u8, c: u8)
    ensures
        same_around(las_version(a, c), decimal(a as nat), las_version(b, c), decimal(b as nat)),
        same_around(las_version(c, a), decimal(a as nat), las_version(c, b), decimal(b as nat)),
{
    lemma_same_around(
        las_version(a, c),
        decimal(a as nat),
        las_version(b, c),
        decimal(b as nat),
        "LAS "@,
        "."@ + decimal(c as nat),
    );
    lemma_same_around(
        las_version(c, a),
        decimal(a as nat),
        las_version(c, b),
        decimal(b as nat),
        "LAS "@ + decimal(c as nat) + "."@,
        Seq::<char>::empty(),
    );
}

/// A single scan without structure and images is described by the format alone.
pub proof fn law_plain_versions_are_alike(scans: usize, other: usize)
    requires
        scans <= 1,
        other <= 1,
    ensures
        e57_version(scans, 0, false) == e57_version(other, 0, false),
        e57_version(scans, 0, false).len() == 3,
{
    reveal_strlit("E57");
}

/// A line goes to the log as it stands and ends it; progress adds nothing.
pub proof fn law_log_entries_hold_the_line(line: String, mark: ProgressMark)
    ensures
        log_entry(WorkerMsg::Log(line)).take(line@.len() as int) == line@,
        log_entry(WorkerMsg::Log(line)).len() == line@.len() + 1,
        log_entry(WorkerMsg::Log(line)).last() == '\n',
        log_entry(WorkerMsg::Progress(mark)).len() == 0,
{
    reveal_strlit("\n");
    assert(log_entry(WorkerMsg::Log(line)).take(line@.len() as int) =~= line@);
}

/// Two failures are logged the same but for their texts, each on a line of its own.
pub proof fn law_log_entries_hold_the_failure(text: String, other: String)
    ensures
        same_around(
            log_entry(WorkerMsg::Error(text)),
            text@,
            log_entry(WorkerMsg::Error(other)),
            other@,
        ),
        log_entry(WorkerMsg::Error(text)).last() == '\n',
{
    reveal_strlit("\n");
    lemma_same_around(
        log_entry(WorkerMsg::Error(text)),
        text@,
        log_entry(WorkerMsg::Error(other)),
        other@,
        "❌ Ошибка: "@,
        "\n"@,
    );
}

/// The entry of a run that is done depends on the scale alone: two scales are logged the
/// same but for their texts, and without a scale the entry is the beginning of the one
/// with a scale.
pub proof fn law_log_entries_hold_the_scale(
    factor: String,
    other: String,
    count: usize,
    other_count: usize,
    elapsed: Duration,
    other_elapsed: Duration,
)
    ensures
        ({
            let done = WorkerMsg::Finished { result_point_count: count, elapsed, scale: None };
            let scaled = WorkerMsg::Finished {
                result_point_count: count,
                elapsed,
                scale: Some(factor),
            };
            let rescaled = WorkerMsg::Finished {
                result_point_count: other_count,
                elapsed: other_elapsed,
                scale: Some(other),
            };
            &&& log_entry(done).is_prefix_of(log_entry(scaled))
            &&& log_entry(done).len() + factor@.len() < log_entry(scaled).len()
            &&& same_around(log_entry(scaled), factor@, log_entry(rescaled), other@)
        }),
{
    let done_line = "✅ Обработка завершена!\n"@;
    let front = "📏 Применён коэффициент масштабирования: "@;
    reveal_strlit("x\n");
    let end = "x\n"@;
    let scaled = WorkerMsg::Finished { result_point_count: count, elapsed, scale: Some(factor) };
    let rescaled = WorkerMsg::Finished {
        result_point_count: other_count,
        elapsed: other_elapsed,
        scale: Some(other),
    };
    assert(log_entry(scaled) =~= (done_line + front) + factor@ + end);
    assert(log_entry(rescaled) =~= (done_line + front) + other@ + end);
    lemma_same_around(
        log_entry(scaled),
        factor@,
        log_entry(rescaled),
        other@,
        done_line + front,
        end,
    );
}

/// A run ends when it is done or has failed, and at no other message.
pub proof fn law_what_ends_a_run(message: WorkerMsg)
    ensures
        ends_run(message) <==> !(message is Log || message is Progress),
{
}

/// What does not differ but in the source keeps every setting, the log, the result and
/// the state of the run.
pub proof fn law_same_but_source_keeps_the_rest(session: Session, other: Session)
    requires
        session.same_but_source(other),
    ensures
        session.use_thinning == other.use_thinning,
        session.use_scaling == other.use_scaling,
        session.grid_stride_k == other.grid_stride_k,
        session.log == other.log,
        session.result_point_count == other.result_point_count,
        session.progress == other.progress,
        session.elapsed_time == other.elapsed_time,
        session.is_processing == other.is_processing,
{
}

/// The description of the source, if any, tells of structure exactly if it is made of
/// something before the word for it, that word, and something behind.
pub proof fn law_structure_is_told_by_a_word(session: Session)
    ensures
        tells_structure(session.version()) <==> session.source_version is Some && exists|
            before: Seq<char>,
            after: Seq<char>,
        |
            session.source_version->0@ == #[trigger] between(before, "структурированный"@, after),
{
    match session.source_version {
        Some(text) => law_holding_is_being_made_of(text@, "структурированный"@),
        None => {},
    }
}

/// The labels of a session are one for the source, one for its size where it is known,
/// and where there is a result one for its size and one for the time, one for the
/// reduction exactly if thinning is on, and one for the scale exactly if scaling is on and
/// there is one. Each ends in what it tells.
pub proof fn law_labels_tell_the_session(
    session: Session,
    reduction: Seq<char>,
    scale: Option<Seq<char>>,
)
    ensures
        ({
            let labels = summary_labels(session, reduction, scale);
            let sized: int = if session.source_point_count > 0 {
                1
            } else {
                0
            };
            let thinned: int = if session.use_thinning {
                1
            } else {
                0
            };
            let scaled: int = if session.use_scaling && scale is Some {
                1
            } else {
                0
            };
            &&& session.source_version is Some ==> ends_in(labels[0], session.source_version->0@)
            &&& session.source_point_count > 0 ==> ends_in(
                labels[1],
                decimal(session.source_point_count as nat),
            )
            &&& session.result_point_count == 0 ==> labels.len() == 1 + sized
            &&& session.result_point_count > 0 ==> {
                &&& labels.len() == 3 + sized + thinned + scaled
                &&& ends_in(labels[1 + sized], decimal(session.result_point_count as nat))
                &&& thinned == 1 ==> ends_in(labels[2 + sized], reduction + seq!['%'])
                &&& scaled == 1 ==> ends_in(labels[2 + sized + thinned], scale->0 + seq!['x'])
                &&& ends_in(labels.last(), clock_text(whole_seconds(session.elapsed_time)))
            }
        }),
{
    reveal_strlit("%");
    reveal_strlit("x");
    let labels = summary_labels(session, reduction, scale);
    if session.source_version is Some {
        lemma_ends_in("📦 Формат исходного файла: "@, session.source_version->0@);
    }
    lemma_ends_in(
        "🔢 Всего точек/ячеек в исходном файле: "@,
        decimal(session.source_point_count as nat),
    );
    lemma_ends_in(
        "✅ Активных точек в результате: "@,
        decimal(session.result_point_count as nat),
    );
    assert("%"@ =~= seq!['%']);
    assert("x"@ =~= seq!['x']);
    assert("📉 Сокращение данных: "@ + reduction + "%"@ =~= "📉 Сокращение данных: "@ + (reduction
        + seq!['%']));
    lemma_ends_in("📉 Сокращение данных: "@, reduction + seq!['%']);
    if scale is Some {
        assert("📏 Масштаб: "@ + scale->0 + "x"@ =~= "📏 Масштаб: "@ + (scale->0 + seq!['x']));
        lemma_ends_in("📏 Масштаб: "@, scale->0 + seq!['x']);
    }
    lemma_ends_in("⏱️ Время выполнения: "@, clock_text(whole_seconds(session.elapsed_time)));
}

/// Labels are looked at one by one, by their characters.
pub proof fn law_labels_are_seen_as_they_are(labels: Seq<String>, i: int)
    requires
        0 <= i < labels.len(),
    ensures
        label_texts(labels).len() == labels.len(),
        label_texts(labels)[i] == labels[i]@,
{
}

} // verus!
