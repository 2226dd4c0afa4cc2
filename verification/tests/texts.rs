use std::time::Duration;

use thin_las::duration::{format_duration, format_seconds};
use thin_las::message::{
    line_color, mode_line, progress_line, reduction_factor, scan_line, LineColor, LogLine,
};
use thin_las::pipeline::Pipeline;
use thin_las::text::{contains_text, push_decimal, push_signed_decimal, same_text};

fn decimal(n: u64) -> String {
    let mut text = String::from("=");
    push_decimal(&mut text, n);
    text
}

fn signed(n: i64) -> String {
    let mut text = String::new();
    push_signed_decimal(&mut text, n);
    text
}

#[test]
fn decimals() {
    assert_eq!(decimal(0), "=0");
    assert_eq!(decimal(9), "=9");
    assert_eq!(decimal(10), "=10");
    assert_eq!(decimal(1_234_567_890), "=1234567890");
    assert_eq!(decimal(u64::MAX), "=18446744073709551615");
    assert_eq!(signed(-1), "-1");
    assert_eq!(signed(0), "0");
    assert_eq!(signed(i64::MIN), "-9223372036854775808");
    assert_eq!(signed(i64::MAX), "9223372036854775807");
}

#[test]
fn texts_are_compared_and_searched_by_character() {
    assert!(same_text("скан", "скан"));
    assert!(!same_text("скан", "сканы"));
    assert!(!same_text("скан", "стан"));
    assert!(contains_text("скан 1", "ан "));
    assert!(contains_text("скан", ""));
    assert!(contains_text("", ""));
    assert!(!contains_text("", "a"));
    assert!(!contains_text("ab", "abc"));
    assert!(contains_text("aab", "ab"));
}

#[test]
fn durations() {
    assert_eq!(format_duration(Duration::from_secs(0)), "0 сек");
    assert_eq!(format_duration(Duration::from_millis(59_999)), "59 сек");
    assert_eq!(format_duration(Duration::from_secs(60)), "1 мин 0 сек");
    assert_eq!(format_duration(Duration::from_secs(3599)), "59 мин 59 сек");
    assert_eq!(format_duration(Duration::from_secs(3600)), "1 ч 0 мин 0 сек");
    assert_eq!(format_duration(Duration::from_secs(90_061)), "25 ч 1 мин 1 сек");
    assert_eq!(format_seconds(7325), "2 ч 2 мин 5 сек");
}

#[test]
fn log_lines() {
    let cases = vec![
        (
            LogLine::GridModeChosen,
            "Инициализирован режим структурированного E57 (децимация сетки k x k + фотопанорамы)...",
        ),
        (
            LogLine::VoxelModeOnStructured,
            "Инициализирован режим прореживания структурированного E57 по среднему расстоянию (3D-сетка вокселей)...",
        ),
        (
            LogLine::VoxelModeOnUnstructured,
            "Инициализирован режим неструктурированного E57 (3D-сетка вокселей)...",
        ),
        (
            LogLine::GridStart { k: 2 },
            "[Старт] Структурированное прореживание E57 (Вариант 1: децимация сетки k = 2)",
        ),
        (
            LogLine::GridStart { k: -3 },
            "[Старт] Структурированное прореживание E57 (Вариант 1: децимация сетки k = -3)",
        ),
        (
            LogLine::ExpectedReduction {
                factor: 4,
                percent: String::from("75.0"),
            },
            "Ожидаемое уменьшение точек и размера файла: в 4 раз (-75.0%)",
        ),
        (
            LogLine::GridScan {
                number: 1,
                count: 2,
                name: Some(String::from("Холл")),
                records: 16,
            },
            "Обработка структурированного скана 1/2 (Холл, исходно ячеек в сетке: 16)...",
        ),
        (
            LogLine::GridScan {
                number: 2,
                count: 2,
                name: None,
                records: 0,
            },
            "Обработка структурированного скана 2/2 (без имени, исходно ячеек в сетке: 0)...",
        ),
        (
            LogLine::GridScanWritten {
                number: 1,
                cells: 4,
            },
            "  -> Скан 1 записан: 4 ячеек сетки",
        ),
        (
            LogLine::CopyingImages,
            "Копирование фотопанорам и привязка к децимированным сканам...",
        ),
        (LogLine::ImagesCopied { count: 3 }, "✔️ Скопировано фотопанорам: 3"),
        (
            LogLine::GridTotal { count: 12 },
            "✔️ Всего точек записано в результирующий файл: 12",
        ),
        (
            LogLine::GridEnd {
                seconds: String::from("0.25"),
            },
            "[Конец] Децимация структурированного E57 завершена за 0.25 сек.",
        ),
        (LogLine::ScanRead { number: 1, count: 5 }, "Чтение скана 1/5..."),
        (LogLine::PointTotal { count: 7 }, "✔️ Записано точек: 7"),
        (
            LogLine::PointEnd {
                seconds: String::from("1.50"),
            },
            "[Конец] Обработка завершена за 1.50 сек.",
        ),
    ];
    for (line, text) in cases {
        assert_eq!(line.text(), text);
    }
}

#[test]
fn progress_lines() {
    assert_eq!(
        progress_line(Pipeline::StructuredE57, "42.5").text(),
        "Прогресс сканирования: 42.5%"
    );
    assert_eq!(progress_line(Pipeline::LasToLas, "5.0").text(), "Прогресс: 5.0%");
}

#[test]
fn lines_about_the_mode() {
    assert!(matches!(
        mode_line(Pipeline::StructuredE57, true),
        Some(LogLine::GridModeChosen)
    ));
    assert!(matches!(
        mode_line(Pipeline::UnstructuredE57, true),
        Some(LogLine::VoxelModeOnStructured)
    ));
    assert!(matches!(
        mode_line(Pipeline::UnstructuredE57, false),
        Some(LogLine::VoxelModeOnUnstructured)
    ));
    for pipeline in [Pipeline::LasToLas, Pipeline::LasToE57, Pipeline::E57ToLas] {
        assert!(mode_line(pipeline, true).is_none());
    }
}

#[test]
fn lines_about_scans_come_only_for_several() {
    assert!(scan_line(0, 1).is_none());
    assert_eq!(scan_line(1, 3).unwrap().text(), "Чтение скана 2/3...");
}

#[test]
fn reduction_factors() {
    assert_eq!(reduction_factor(2), Some(4));
    assert_eq!(reduction_factor(10), Some(100));
    assert_eq!(reduction_factor(1), None);
    assert_eq!(reduction_factor(-5), None);
}

#[test]
fn colors_of_lines() {
    assert_eq!(line_color("❌ Ошибка: ✅"), LineColor::Red);
    assert_eq!(line_color("✅ Обработка завершена!"), LineColor::Green);
    assert_eq!(line_color("✔️ Записано точек: 7"), LineColor::Green);
    assert_eq!(line_color("📏 Применён коэффициент"), LineColor::Blue);
    assert_eq!(line_color("⏳ Идёт обработка..."), LineColor::Yellow);
    assert_eq!(line_color("Прогресс: 5.0%"), LineColor::Plain);
    assert_eq!(line_color(""), LineColor::Plain);
}
