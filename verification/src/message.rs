//! The lines that a run writes to its log.

use crate::pipeline::Pipeline;
use crate::text::between;
use crate::text::contains_text;
use crate::text::counted;
use crate::text::decimal;
use crate::text::framed;
use crate::text::holds_text;
use crate::text::labelled;
use crate::text::law_holding_is_being_made_of;
use crate::text::lemma_same_around;
use crate::text::push_decimal;
use crate::text::push_signed_decimal;
use crate::text::same_around;
use crate::text::signed_decimal;
use vstd::prelude::*;

verus! {

/// A line of the log. Percentages and durations with a fraction come as texts.
#[derive(Debug)]
pub enum LogLine {
    /// The grid of a structured file is about to be decimated.
    GridModeChosen,
    /// A structured file is about to be thinned by cubes.
    VoxelModeOnStructured,
    /// A file without a grid is about to be thinned by cubes.
    VoxelModeOnUnstructured,
    /// Decimation starts.
    GridStart { k: i64 },
    /// How much smaller the result will be.
    ExpectedReduction { factor: i64, percent: String },
    /// A structured scan is about to be read. The number counts from one.
    GridScan { number: usize, count: usize, name: Option<String>, records: u64 },
    /// How far the scans have been read.
    GridProgress { percent: String },
    /// A structured scan was written. The number counts from one.
    GridScanWritten { number: usize, cells: usize },
    /// Images are about to be copied.
    CopyingImages,
    /// Images were copied.
    ImagesCopied { count: usize },
    /// How many points the result holds.
    GridTotal { count: usize },
    /// Decimation is done.
    GridEnd { seconds: String },
    /// A scan is about to be read. The number counts from one.
    ScanRead { number: usize, count: usize },
    /// How far the points have been read.
    PointProgress { percent: String },
    /// How many points were written.
    PointTotal { count: usize },
    /// Processing is done.
    PointEnd { seconds: String },
}

/// The text of a line.
pub open spec fn line_text(line: LogLine) -> Seq<char> {
    match line {
        LogLine::GridModeChosen => {
            "Инициализирован режим структурированного E57 (децимация сетки k x k + фотопанорамы)..."@
        },
        LogLine::VoxelModeOnStructured => {
            "Инициализирован режим прореживания структурированного E57 по среднему расстоянию (3D-сетка вокселей)..."@
        },
        LogLine::VoxelModeOnUnstructured => {
            "Инициализирован режим неструктурированного E57 (3D-сетка вокселей)..."@
        },
        LogLine::GridStart { k } => {
            "[Старт] Структурированное прореживание E57 (Вариант 1: децимация сетки k = "@
                + signed_decimal(k as int) + ")"@
        },
        LogLine::ExpectedReduction { factor, percent } => {
            "Ожидаемое уменьшение точек и размера файла: в "@ + signed_decimal(factor as int)
                + " раз (-"@ + percent@ + "%)"@
        },
        LogLine::GridScan { number, count, name, records } => {
            "Обработка структурированного скана "@ + decimal(number as nat) + "/"@ + decimal(
                count as nat,
            ) + " ("@ + (match name {
                Some(text) => text@,
                None => "без имени"@,
            }) + ", исходно ячеек в сетке: "@ + decimal(records as nat) + ")..."@
        },
        LogLine::GridProgress { percent } => "Прогресс сканирования: "@ + percent@ + "%"@,
        LogLine::GridScanWritten { number, cells } => {
            "  -> Скан "@ + decimal(number as nat) + " записан: "@ + decimal(cells as nat)
                + " ячеек сетки"@
        },
        LogLine::CopyingImages => {
            "Копирование фотопанорам и привязка к децимированным сканам..."@
        },
        LogLine::ImagesCopied { count } => {
            "✔️ Скопировано фотопанорам: "@ + decimal(count as nat)
        },
        LogLine::GridTotal { count } => {
            "✔️ Всего точек записано в результирующий файл: "@ + decimal(count as nat)
        },
        LogLine::GridEnd { seconds } => {
            "[Конец] Децимация структурированного E57 завершена за "@ + seconds@ + " сек."@
        },
        LogLine::ScanRead { number, count } => {
            "Чтение скана "@ + decimal(number as nat) + "/"@ + decimal(count as nat) + "..."@
        },
        LogLine::PointProgress { percent } => "Прогресс: "@ + percent@ + "%"@,
        LogLine::PointTotal { count } => "✔️ Записано точек: "@ + decimal(count as nat),
        LogLine::PointEnd { seconds } => {
            "[Конец] Обработка завершена за "@ + seconds@ + " сек."@
        },
    }
}

impl LogLine {
    /// The text of the line.
    pub fn text(&self) -> (text: String)
        ensures
            text@ == line_text(*self),
    {
        match self {
            LogLine::GridModeChosen => {
                "Инициализирован режим структурированного E57 (децимация сетки k x k + фотопанорамы)...".to_owned()
            },
            LogLine::VoxelModeOnStructured => {
                "Инициализирован режим прореживания структурированного E57 по среднему расстоянию (3D-сетка вокселей)...".to_owned()
            },
            LogLine::VoxelModeOnUnstructured => {
                "Инициализирован режим неструктурированного E57 (3D-сетка вокселей)...".to_owned()
            },
            LogLine::GridStart { k } => {
                let mut text =
                    "[Старт] Структурированное прореживание E57 (Вариант 1: децимация сетки k = ".to_owned();
                push_signed_decimal(&mut text, *k);
                text.append(")");
                text
            },
            LogLine::ExpectedReduction { factor, percent } => {
                let mut text = "Ожидаемое уменьшение точек и размера файла: в ".to_owned();
                push_signed_decimal(&mut text, *factor);
                text.append(" раз (-");
                text.append(percent.as_str());
                text.append("%)");
                text
            },
            LogLine::GridScan { number, count, name, records } => {
                let mut text = counted("Обработка структурированного скана ", *number, "/");
                push_decimal(&mut text, *count as u64);
                text.append(" (");
                match name {
                    Some(known) => text.append(known.as_str()),
                    None => text.append("без имени"),
                }
                text.append(", исходно ячеек в сетке: ");
                push_decimal(&mut text, *records);
                text.append(")...");
                text
            },
            LogLine::GridProgress { percent } => framed(
                "Прогресс сканирования: ",
                percent.as_str(),
                "%",
            ),
            LogLine::GridScanWritten { number, cells } => {
                let mut text = counted("  -> Скан ", *number, " записан: ");
                push_decimal(&mut text, *cells as u64);
                text.append(" ячеек сетки");
                text
            },
            LogLine::CopyingImages => {
                "Копирование фотопанорам и привязка к децимированным сканам...".to_owned()
            },
            LogLine::ImagesCopied { count } => labelled("✔️ Скопировано фотопанорам: ", *count),
            LogLine::GridTotal { count } => labelled(
                "✔️ Всего точек записано в результирующий файл: ",
                *count,
            ),
            LogLine::GridEnd { seconds } => framed(
                "[Конец] Децимация структурированного E57 завершена за ",
                seconds.as_str(),
                " сек.",
            ),
            LogLine::ScanRead { number, count } => {
                let mut text = counted("Чтение скана ", *number, "/");
                push_decimal(&mut text, *count as u64);
                text.append("...");
                text
            },
            LogLine::PointProgress { percent } => framed("Прогресс: ", percent.as_str(), "%"),
            LogLine::PointTotal { count } => labelled("✔️ Записано точек: ", *count),
            LogLine::PointEnd { seconds } => framed(
                "[Конец] Обработка завершена за ",
                seconds.as_str(),
                " сек.",
            ),
        }
    }
}

/// The line that tells which way an E57 file is thinned; the other pipelines have none.
pub fn mode_line(pipeline: Pipeline, is_structured: bool) -> (line: Option<LogLine>)
    ensures
        line == match pipeline {
            Pipeline::StructuredE57 => Some(LogLine::GridModeChosen),
            Pipeline::UnstructuredE57 => if is_structured {
                Some(LogLine::VoxelModeOnStructured)
            } else {
                Some(LogLine::VoxelModeOnUnstructured)
            },
            _ => None,
        },
{
    match pipeline {
        Pipeline::StructuredE57 => Some(LogLine::GridModeChosen),
        Pipeline::UnstructuredE57 => {
            if is_structured {
                Some(LogLine::VoxelModeOnStructured)
            } else {
                Some(LogLine::VoxelModeOnUnstructured)
            }
        },
        _ => None,
    }
}

/// The line that tells how far a run has come.
pub fn progress_line(pipeline: Pipeline, percent: &str) -> (line: LogLine)
    ensures
        line_text(line) == (if pipeline == Pipeline::StructuredE57 {
            "Прогресс сканирования: "@
        } else {
            "Прогресс: "@
        }) + percent@ + "%"@,
{
    match pipeline {
        Pipeline::StructuredE57 => LogLine::GridProgress { percent: percent.to_owned() },
        _ => LogLine::PointProgress { percent: percent.to_owned() },
    }
}

/// How many times fewer points a stride leaves, if it leaves fewer.
pub fn reduction_factor(k: i64) -> (factor: Option<i64>)
    requires
        k > 1 ==> k * k <= i64::MAX,
    ensures
        factor == if k > 1 {
            Some((k * k) as i64)
        } else {
            None
        },
{
    if k > 1 {
        assert(k * k >= 0) by (nonlinear_arith);
        Some(k * k)
    } else {
        None
    }
}

/// The line that announces a scan of a merged run: there is one only where the file has
/// several scans.
pub fn scan_line(index: usize, count: usize) -> (line: Option<LogLine>)
    requires
        index < count,
    ensures
        line == if count > 1 {
            Some(LogLine::ScanRead { number: (index + 1) as usize, count })
        } else {
            None
        },
{
    if count > 1 {
        Some(LogLine::ScanRead { number: index + 1, count })
    } else {
        None
    }
}

/// The colours in which lines of the log are shown.
#[derive(Clone, Copy, Debug, PartialEq, Eq, Structural)]
pub enum LineColor {
    Red,
    Green,
    Blue,
    Yellow,
    Plain,
}

/// The colour of a line: that of the first sign found in it, failure before success
/// before scaling before waiting.
pub open spec fn color_of(line: Seq<char>) -> LineColor {
    if holds_text(line, "❌"@) {
        LineColor::Red
    } else if holds_text(line, "✅"@) || holds_text(line, "✔️"@) {
        LineColor::Green
    } else if holds_text(line, "📏"@) {
        LineColor::Blue
    } else if holds_text(line, "⏳"@) {
        LineColor::Yellow
    } else {
        LineColor::Plain
    }
}

/// The colour of a line.
pub fn line_color(line: &str) -> (color: LineColor)
    ensures
        color == color_of(line@),
{
    if contains_text(line, "❌") {
        LineColor::Red
    } else if contains_text(line, "✅") || contains_text(line, "✔️") {
        LineColor::Green
    } else if contains_text(line, "📏") {
        LineColor::Blue
    } else if contains_text(line, "⏳") {
        LineColor::Yellow
    } else {
        LineColor::Plain
    }
}

/// Two lines of one kind are the same but for the number that differs, which each gives in
/// decimal.
pub proof fn law_lines_differ_in_their_numbers_alone(
    a: usize,
    b: usize,
    c: usize,
    m: i64,
    n: i64,
    p: String,
)
    ensures
        same_around(
            line_text(LogLine::GridStart { k: m }),
            signed_decimal(m as int),
            line_text(LogLine::GridStart { k: n }),
            signed_decimal(n as int),
        ),
        same_around(
            line_text(LogLine::ExpectedReduction { factor: m, percent: p }),
            signed_decimal(m as int),
            line_text(LogLine::ExpectedReduction { factor: n, percent: p }),
            signed_decimal(n as int),
        ),
        same_around(
            line_text(LogLine::GridScanWritten { number: a, cells: c }),
            decimal(a as nat),
            line_text(LogLine::GridScanWritten { number: b, cells: c }),
            decimal(b as nat),
        ),
        same_around(
            line_text(LogLine::GridScanWritten { number: c, cells: a }),
            decimal(a as nat),
            line_text(LogLine::GridScanWritten { number: c, cells: b }),
            decimal(b as nat),
        ),
        same_around(
            line_text(LogLine::ImagesCopied { count: a }),
            decimal(a as nat),
            line_text(LogLine::ImagesCopied { count: b }),
            decimal(b as nat),
        ),
        same_around(
            line_text(LogLine::GridTotal { count: a }),
            decimal(a as nat),
            line_text(LogLine::GridTotal { count: b }),
            decimal(b as nat),
        ),
        same_around(
            line_text(LogLine::PointTotal { count: a }),
            decimal(a as nat),
            line_text(LogLine::PointTotal { count: b }),
            decimal(b as nat),
        ),
        same_around(
            line_text(LogLine::ScanRead { number: a, count: c }),
            decimal(a as nat),
            line_text(LogLine::ScanRead { number: b, count: c }),
            decimal(b as nat),
        ),
        same_around(
            line_text(LogLine::ScanRead { number: c, count: a }),
            decimal(a as nat),
            line_text(LogLine::ScanRead { number: c, count: b }),
            decimal(b as nat),
        ),
{
    lemma_same_around(
        line_text(LogLine::GridStart { k: m }),
        signed_decimal(m as int),
        line_text(LogLine::GridStart { k: n }),
        signed_decimal(n as int),
        "[Старт] Структурированное прореживание E57 (Вариант 1: децимация сетки k = "@,
        ")"@,
    );
    lemma_same_around(
        line_text(LogLine::ExpectedReduction { factor: m, percent: p }),
        signed_decimal(m as int),
        line_text(LogLine::ExpectedReduction { factor: n, percent: p }),
        signed_decimal(n as int),
        "Ожидаемое уменьшение точек и размера файла: в "@,
        " раз (-"@ + p@ + "%)"@,
    );
    lemma_same_around(
        line_text(LogLine::GridScanWritten { number: a, cells: c }),
        decimal(a as nat),
        line_text(LogLine::GridScanWritten { number: b, cells: c }),
        decimal(b as nat),
        "  -> Скан "@,
        " записан: "@ + decimal(c as nat) + " ячеек сетки"@,
    );
    lemma_same_around(
        line_text(LogLine::GridScanWritten { number: c, cells: a }),
        decimal(a as nat),
        line_text(LogLine::GridScanWritten { number: c, cells: b }),
        decimal(b as nat),
        "  -> Скан "@ + decimal(c as nat) + " записан: "@,
        " ячеек сетки"@,
    );
    lemma_same_around(
        line_text(LogLine::ImagesCopied { count: a }),
        decimal(a as nat),
        line_text(LogLine::ImagesCopied { count: b }),
        decimal(b as nat),
        "✔️ Скопировано фотопанорам: "@,
        Seq::<char>::empty(),
    );
    lemma_same_around(
        line_text(LogLine::GridTotal { count: a }),
        decimal(a as nat),
        line_text(LogLine::GridTotal { count: b }),
        decimal(b as nat),
        "✔️ Всего точек записано в результирующий файл: "@,
        Seq::<char>::empty(),
    );
    lemma_same_around(
        line_text(LogLine::PointTotal { count: a }),
        decimal(a as nat),
        line_text(LogLine::PointTotal { count: b }),
        decimal(b as nat),
        "✔️ Записано точек: "@,
        Seq::<char>::empty(),
    );
    lemma_same_around(
        line_text(LogLine::ScanRead { number: a, count: c }),
        decimal(a as nat),
        line_text(LogLine::ScanRead { number: b, count: c }),
        decimal(b as nat),
        "Чтение скана "@,
        "/"@ + decimal(c as nat) + "..."@,
    );
    lemma_same_around(
        line_text(LogLine::ScanRead { number: c, count: a }),
        decimal(a as nat),
        line_text(LogLine::ScanRead { number: c, count: b }),
        decimal(b as nat),
        "Чтение скана "@ + decimal(c as nat) + "/"@,
        "..."@,
    );
}

/// Two lines of one kind are the same but for the text that differs, which each gives as
/// it stands.
pub proof fn law_lines_differ_in_their_texts_alone(m: i64, p: String, q: String)
    ensures
        same_around(
            line_text(LogLine::ExpectedReduction { factor: m, percent: p }),
            p@,
            line_text(LogLine::ExpectedReduction { factor: m, percent: q }),
            q@,
        ),
        same_around(
            line_text(LogLine::GridProgress { percent: p }),
            p@,
            line_text(LogLine::GridProgress { percent: q }),
            q@,
        ),
        same_around(
            line_text(LogLine::GridEnd { seconds: p }),
            p@,
            line_text(LogLine::GridEnd { seconds: q }),
            q@,
        ),
        same_around(
            line_text(LogLine::PointProgress { percent: p }),
            p@,
            line_text(LogLine::PointProgress { percent: q }),
            q@,
        ),
        same_around(
            line_text(LogLine::PointEnd { seconds: p }),
            p@,
            line_text(LogLine::PointEnd { seconds: q }),
            q@,
        ),
{
    lemma_same_around(
        line_text(LogLine::ExpectedReduction { factor: m, percent: p }),
        p@,
        line_text(LogLine::ExpectedReduction { factor: m, percent: q }),
        q@,
        "Ожидаемое уменьшение точек и размера файла: в "@ + signed_decimal(m as int) + " раз (-"@,
        "%)"@,
    );
    lemma_same_around(
        line_text(LogLine::GridProgress { percent: p }),
        p@,
        line_text(LogLine::GridProgress { percent: q }),
        q@,
        "Прогресс сканирования: "@,
        "%"@,
    );
    lemma_same_around(
        line_text(LogLine::GridEnd { seconds: p }),
        p@,
        line_text(LogLine::GridEnd { seconds: q }),
        q@,
        "[Конец] Децимация структурированного E57 завершена за "@,
        " сек."@,
    );
    lemma_same_around(
        line_text(LogLine::PointProgress { percent: p }),
        p@,
        line_text(LogLine::PointProgress { percent: q }),
        q@,
        "Прогресс: "@,
        "%"@,
    );
    lemma_same_around(
        line_text(LogLine::PointEnd { seconds: p }),
        p@,
        line_text(LogLine::PointEnd { seconds: q }),
        q@,
        "[Конец] Обработка завершена за "@,
        " сек."@,
    );
}

/// What stands behind the count in the line about a structured scan.
spec fn scan_line_end(name: Option<String>, records: u64) -> Seq<char> {
    " ("@ + ((match name {
        Some(text) => text@,
        None => "без имени"@,
    }) + (", исходно ячеек в сетке: "@ + (decimal(records as nat) + ")..."@)))
}

/// The line about a structured scan, divided behind each of its numbers.
proof fn lemma_scan_line(number: usize, count: usize, name: Option<String>, records: u64)
    ensures
        line_text(LogLine::GridScan { number, count, name, records })
            == "Обработка структурированного скана "@ + decimal(number as nat) + "/"@ + decimal(
            count as nat,
        ) + scan_line_end(name, records),
{
    let shown = match name {
        Some(text) => text@,
        None => "без имени"@,
    };
    let size = decimal(records as nat);
    let front = "Обработка структурированного скана "@ + decimal(number as nat) + "/"@ + decimal(
        count as nat,
    );
    let cells = ", исходно ячеек в сетке: "@;
    assert(front + " ("@ + shown =~= front + (" ("@ + shown));
    assert(front + (" ("@ + shown) + cells =~= front + (" ("@ + shown + cells));
    assert(front + (" ("@ + shown + cells) + size =~= front + (" ("@ + shown + cells + size));
    assert(front + (" ("@ + shown + cells + size) + ")..."@ =~= front + (" ("@ + shown + cells
        + size + ")..."@));
    assert(" ("@ + shown + cells + size + ")..."@ =~= scan_line_end(name, records));
}

/// The lines about two structured scans that differ in the number or the count alone are
/// the same but for that.
pub proof fn law_scan_lines_tell_number_and_count(
    a: usize,
    b: usize,
    c: usize,
    name: Option<String>,
    r: u64,
)
    ensures
        same_around(
            line_text(LogLine::GridScan { number: a, count: c, name, records: r }),
            decimal(a as nat),
            line_text(LogLine::GridScan { number: b, count: c, name, records: r }),
            decimal(b as nat),
        ),
        same_around(
            line_text(LogLine::GridScan { number: c, count: a, name, records: r }),
            decimal(a as nat),
            line_text(LogLine::GridScan { number: c, count: b, name, records: r }),
            decimal(b as nat),
        ),
{
    let front = "Обработка структурированного скана "@;
    let end = scan_line_end(name, r);
    lemma_scan_line(a, c, name, r);
    lemma_scan_line(b, c, name, r);
    lemma_scan_line(c, a, name, r);
    lemma_scan_line(c, b, name, r);
    lemma_same_around(
        line_text(LogLine::GridScan { number: a, count: c, name, records: r }),
        decimal(a as nat),
        line_text(LogLine::GridScan { number: b, count: c, name, records: r }),
        decimal(b as nat),
        front,
        "/"@ + decimal(c as nat) + end,
    );
    lemma_same_around(
        line_text(LogLine::GridScan { number: c, count: a, name, records: r }),
        decimal(a as nat),
        line_text(LogLine::GridScan { number: c, count: b, name, records: r }),
        decimal(b as nat),
        front + decimal(c as nat) + "/"@,
        end,
    );
}

/// The lines about two structured scans that differ in the name or the size alone are the
/// same but for that.
pub proof fn law_scan_lines_tell_name_and_size(
    a: usize,
    c: usize,
    name: Option<String>,
    p: String,
    q: String,
    r: u64,
    s: u64,
)
    ensures
        same_around(
            line_text(LogLine::GridScan { number: a, count: c, name, records: r }),
            decimal(r as nat),
            line_text(LogLine::GridScan { number: a, count: c, name, records: s }),
            decimal(s as nat),
        ),
        same_around(
            line_text(LogLine::GridScan { number: a, count: c, name: Some(p), records: r }),
            p@,
            line_text(LogLine::GridScan { number: a, count: c, name: Some(q), records: r }),
            q@,
        ),
{
    let front = "Обработка структурированного скана "@ + decimal(a as nat) + "/"@ + decimal(
        c as nat,
    ) + " ("@;
    let cells = ", исходно ячеек в сетке: "@;
    let shown = match name {
        Some(text) => text@,
        None => "без имени"@,
    };
    lemma_same_around(
        line_text(LogLine::GridScan { number: a, count: c, name, records: r }),
        decimal(r as nat),
        line_text(LogLine::GridScan { number: a, count: c, name, records: s }),
        decimal(s as nat),
        front + shown + cells,
        ")..."@,
    );
    let end = cells + (decimal(r as nat) + ")..."@);
    assert(front + p@ + cells + decimal(r as nat) + ")..."@ =~= front + p@ + end);
    assert(front + q@ + cells + decimal(r as nat) + ")..."@ =~= front + q@ + end);
    lemma_same_around(
        line_text(LogLine::GridScan { number: a, count: c, name: Some(p), records: r }),
        p@,
        line_text(LogLine::GridScan { number: a, count: c, name: Some(q), records: r }),
        q@,
        front,
        end,
    );
}

/// A line is red exactly if it holds the sign of failure; else green exactly if it holds
/// one of the two signs of success; else blue exactly if it holds the sign of scaling; else
/// yellow exactly if it holds the sign of waiting; else plain.
pub proof fn law_colors_follow_the_signs(line: Seq<char>)
    ensures
        color_of(line) == LineColor::Red <==> holds_text(line, "❌"@),
        color_of(line) == LineColor::Green <==> !holds_text(line, "❌"@) && (holds_text(
            line,
            "✅"@,
        ) || holds_text(line, "✔️"@)),
        color_of(line) == LineColor::Blue ==> holds_text(line, "📏"@),
        color_of(line) == LineColor::Yellow ==> holds_text(line, "⏳"@),
        color_of(line) == LineColor::Plain <==> !holds_text(line, "❌"@) && !holds_text(
            line,
            "✅"@,
        ) && !holds_text(line, "✔️"@) && !holds_text(line, "📏"@) && !holds_text(line, "⏳"@),
        color_of(line) == LineColor::Yellow ==> !holds_text(line, "📏"@),
{
}

/// A line that holds the sign of failure anywhere is red, whatever stands around it, and
/// one that holds a sign of success is red or green.
pub proof fn law_signs_count_anywhere(before: Seq<char>, after: Seq<char>)
    ensures
        color_of(between(before, "❌"@, after)) == LineColor::Red,
        color_of(between(before, "✅"@, after)) == LineColor::Green || color_of(
            between(before, "✅"@, after),
        ) == LineColor::Red,
        color_of(between(before, "✔️"@, after)) == LineColor::Green || color_of(
            between(before, "✔️"@, after),
        ) == LineColor::Red,
{
    law_holding_is_being_made_of(between(before, "❌"@, after), "❌"@);
    law_holding_is_being_made_of(between(before, "✅"@, after), "✅"@);
    law_holding_is_being_made_of(between(before, "✔️"@, after), "✔️"@);
}

} // verus!
