use std::time::Duration;

use thin_las::message::{line_color, LineColor};
use thin_las::pipeline::{PointCloudFormat, ThinningMethod};
use thin_las::record::ScanSummary;
use thin_las::run::ProgressMark;
use thin_las::session::{
    e57_version_text, grid_labels, las_version_text, tries_e57, RunRequest, Session, WorkerMsg,
};

fn summary(total_points: u64, is_structured: bool) -> ScanSummary {
    ScanSummary {
        total_points,
        has_color: false,
        has_intensity: false,
        is_structured,
    }
}

#[test]
fn a_new_session() {
    let session = Session::default();
    assert!(!session.use_thinning);
    assert!(!session.use_scaling);
    assert_eq!(session.grid_stride_k, 2);
    assert_eq!(session.thinning_method, ThinningMethod::VoxelGrid);
    assert_eq!(session.log, "");
    assert_eq!(session.source_version, None);
    assert_eq!(session.source_point_count, 0);
    assert_eq!(session.result_point_count, 0);
    assert_eq!(session.progress, ProgressMark::Percent(0));
    assert_eq!(session.elapsed_time, Duration::from_secs(0));
    assert!(!session.is_processing);
}

#[test]
fn descriptions_of_sources() {
    assert_eq!(
        e57_version_text(2, 3, true),
        "E57 (структурированный, сканов: 2, панорам: 3)"
    );
    assert_eq!(
        e57_version_text(1, 0, true),
        "E57 (структурированный, сканов: 1, панорам: 0)"
    );
    assert_eq!(e57_version_text(1, 4, false), "E57 (сканов: 1, панорам: 4)");
    assert_eq!(e57_version_text(5, 0, false), "E57 (сканов: 5)");
    assert_eq!(e57_version_text(1, 0, false), "E57");
    assert_eq!(e57_version_text(0, 0, false), "E57");
    assert_eq!(las_version_text(1, 4), "LAS 1.4");
}

#[test]
fn which_readers_are_tried() {
    assert!(tries_e57(None));
    assert!(tries_e57(Some(PointCloudFormat::E57)));
    assert!(!tries_e57(Some(PointCloudFormat::Las)));
}

#[test]
fn adopting_sources() {
    let mut session = Session::default();
    assert!(session.tries_las());
    session.adopt_e57(2, 1, summary(500, true));
    assert!(!session.tries_las());
    assert!(session.is_structured_source());
    assert_eq!(session.source_point_count, 500);
    assert_eq!(session.thinning_method, ThinningMethod::GridStride);

    session.adopt_e57(2, 1, summary(40, false));
    assert!(!session.is_structured_source());
    assert_eq!(session.thinning_method, ThinningMethod::VoxelGrid);

    session.adopt_las(1, 2, 77);
    assert_eq!(session.source_version.as_deref(), Some("LAS 1.2"));
    assert_eq!(session.source_point_count, 77);
    assert!(!session.is_structured_source());
    assert_eq!(session.thinning_method, ThinningMethod::VoxelGrid);

    session.pick_source();
    assert_eq!(session.source_version, None);
    assert_eq!(session.source_point_count, 0);
    assert!(!session.is_structured_source());
}

#[test]
fn the_grid_method_needs_a_grid() {
    let mut session = Session::default();
    session.thinning_method = ThinningMethod::GridStride;
    assert!(!session.thins_by_grid());
    assert!(!session.settle_method());
    assert_eq!(session.thinning_method, ThinningMethod::VoxelGrid);

    session.adopt_e57(1, 0, summary(16, true));
    assert!(session.settle_method());
    assert_eq!(session.thinning_method, ThinningMethod::GridStride);
    assert!(session.thins_by_grid());

    session.thinning_method = ThinningMethod::VoxelGrid;
    assert!(!session.thins_by_grid());
}

#[test]
fn when_a_run_can_start() {
    let mut session = Session::default();
    assert!(session.can_process(true, true, false));
    assert!(!session.can_process(false, true, false));
    assert!(!session.can_process(true, false, false));
    assert!(!session.can_process(true, true, true));
    session.begin();
    assert!(!session.can_process(true, true, false));
}

#[test]
fn a_run_from_start_to_end() {
    let mut session = Session::default();
    session.use_thinning = true;
    session.grid_stride_k = 5;
    session.log = String::from("old\n");
    session.result_point_count = 3;
    assert_eq!(
        session.begin(),
        RunRequest {
            use_thinning: true,
            use_scaling: false,
            grid_stride_k: 5,
            thinning_method: ThinningMethod::VoxelGrid,
        }
    );
    assert_eq!(session.log, "");
    assert_eq!(session.result_point_count, 0);
    assert_eq!(session.progress, ProgressMark::Percent(0));
    assert!(session.is_processing);

    session.receive(WorkerMsg::Log(String::from("первая")));
    session.receive(WorkerMsg::Progress(ProgressMark::Percent(90)));
    assert_eq!(session.log, "первая\n");
    assert_eq!(session.progress, ProgressMark::Percent(90));
    assert!(session.is_processing);

    session.receive(WorkerMsg::Finished {
        result_point_count: 12,
        elapsed: Duration::from_secs(61),
        scale: Some(String::from("2.0000")),
    });
    assert_eq!(
        session.log,
        "первая\n✅ Обработка завершена!\n📏 Применён коэффициент масштабирования: 2.0000x\n"
    );
    assert_eq!(session.result_point_count, 12);
    assert_eq!(session.elapsed_time, Duration::from_secs(61));
    assert_eq!(session.progress, ProgressMark::Percent(100));
    assert!(!session.is_processing);
}

#[test]
fn a_run_without_scaling_says_nothing_of_it() {
    let mut session = Session::default();
    session.begin();
    session.receive(WorkerMsg::Finished {
        result_point_count: 1,
        elapsed: Duration::from_secs(1),
        scale: None,
    });
    assert_eq!(session.log, "✅ Обработка завершена!\n");
}

#[test]
fn a_failure_is_logged_in_red_and_ends_the_run() {
    let mut session = Session::default();
    session.begin();
    session.receive(WorkerMsg::Progress(ProgressMark::Percent(98)));
    session.receive(WorkerMsg::Error(String::from("нет файла")));
    assert_eq!(session.log, "❌ Ошибка: нет файла\n");
    assert_eq!(line_color("❌ Ошибка: нет файла"), LineColor::Red);
    assert_eq!(session.progress, ProgressMark::Percent(98));
    assert!(!session.is_processing);
}

#[test]
fn labels_before_a_result() {
    let mut session = Session::default();
    assert_eq!(
        session.summary("0.00", None),
        vec!["📦 Формат исходного файла: не определён"]
    );
    session.adopt_las(1, 4, 1000);
    assert_eq!(
        session.summary("0.00", None),
        vec![
            "📦 Формат исходного файла: LAS 1.4",
            "🔢 Всего точек/ячеек в исходном файле: 1000",
        ]
    );
}

#[test]
fn labels_of_a_result() {
    let mut session = Session::default();
    session.adopt_las(1, 4, 1000);
    session.result_point_count = 250;
    session.elapsed_time = Duration::from_secs(125);
    assert_eq!(
        session.summary("75.00", Some("2.0000")),
        vec![
            "📦 Формат исходного файла: LAS 1.4",
            "🔢 Всего точек/ячеек в исходном файле: 1000",
            "✅ Активных точек в результате: 250",
            "⏱️ Время выполнения: 2 мин 5 сек",
        ]
    );
    session.use_thinning = true;
    session.use_scaling = true;
    assert_eq!(
        session.summary("75.00", Some("2.0000")),
        vec![
            "📦 Формат исходного файла: LAS 1.4",
            "🔢 Всего точек/ячеек в исходном файле: 1000",
            "✅ Активных точек в результате: 250",
            "📉 Сокращение данных: 75.00%",
            "📏 Масштаб: 2.0000x",
            "⏱️ Время выполнения: 2 мин 5 сек",
        ]
    );
    assert_eq!(session.summary("75.00", None).len(), 5);
}

#[test]
fn labels_of_a_stride() {
    assert_eq!(
        grid_labels(3, "88.9"),
        vec![
            "• Прореживание: каждая 3-я строка и 3-я колонка матрицы скана",
            "• Точек и размер файла: В 9 РАЗ МЕНЬШЕ (-88.9%)",
        ]
    );
}

#[test]
fn a_run_never_starts_by_a_grid_that_is_not_there() {
    let mut session = Session::default();
    session.use_thinning = true;
    session.thinning_method = ThinningMethod::GridStride;
    assert_eq!(session.begin().thinning_method, ThinningMethod::VoxelGrid);
    assert_eq!(session.thinning_method, ThinningMethod::VoxelGrid);

    let mut session = Session::default();
    session.adopt_e57(1, 0, summary(16, true));
    assert_eq!(session.begin().thinning_method, ThinningMethod::GridStride);
}
