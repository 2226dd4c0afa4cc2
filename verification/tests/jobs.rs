use thin_las::copying::{
    plan_fresh_image, plan_image, plan_scan, ImageMeta, ProjectionKind, ScanMeta, TextInfo,
};
use thin_las::guid::{fresh_guid, GuidMap};
use thin_las::job::{Action, GridJob, GridScan, PointJob};
use thin_las::pipeline::{choose_pipeline, Pipeline, PointCloudFormat, ThinningMethod};
use thin_las::record::{narrow_color, CoordinateState, FieldValue, Rgb8};
use thin_las::run::{offer_for, PointOffer};

fn no_texts() -> TextInfo {
    TextInfo {
        name: None,
        description: None,
        sensor_vendor: None,
        sensor_model: None,
        sensor_serial: None,
    }
}

fn bare_scan_meta() -> ScanMeta {
    ScanMeta {
        texts: no_texts(),
        has_acquisition_start: false,
        has_acquisition_end: false,
        has_transform: false,
        has_color_limits: false,
        has_intensity_limits: false,
    }
}

fn bare_image(guid: Option<&str>, pointcloud_guid: Option<&str>) -> ImageMeta {
    ImageMeta {
        guid: guid.map(String::from),
        texts: no_texts(),
        has_acquisition: false,
        pointcloud_guid: pointcloud_guid.map(String::from),
        has_transform: false,
        preview_mask: None,
        projection: None,
    }
}

fn scan(guid: Option<&str>) -> GridScan {
    GridScan {
        guid: guid.map(String::from),
        records: 16,
        has_invalid_state: true,
        has_color: false,
        has_intensity: false,
        row_min: None,
        column_min: None,
        meta: bare_scan_meta(),
    }
}

fn shown(actions: &[Action]) -> Vec<String> {
    actions
        .iter()
        .map(|action| match action {
            Action::Log(line) => line.text(),
            other => format!("{:?}", other),
        })
        .collect()
}

fn is_guid(text: &str) -> bool {
    let chars: Vec<char> = text.chars().collect();
    chars.len() == 36
        && chars.iter().enumerate().all(|(i, c)| match i {
            8 | 13 | 18 | 23 => *c == '-',
            14 => *c == '4',
            19 => ['8', '9', 'a', 'b'].contains(c),
            _ => c.is_ascii_digit() || ('a'..='f').contains(c),
        })
}

#[test]
fn fresh_identifiers() {
    let first = fresh_guid();
    let second = fresh_guid();
    assert!(is_guid(&first));
    assert!(is_guid(&second));
    assert_ne!(first, second);
}

#[test]
fn references_follow_their_scan() {
    let mut map = GuidMap::new();
    assert_eq!(map.get("a"), None);
    assert_eq!(map.resolve("a"), "a");
    map.insert("a", "new-a");
    map.insert("b", "new-b");
    assert_eq!(map.resolve("a"), "new-a");
    assert_eq!(map.resolve("b"), "new-b");
    assert_eq!(map.resolve("c"), "c");
    map.insert("a", "newer-a");
    assert_eq!(map.get("a").as_deref(), Some("newer-a"));
    assert_eq!(map.resolve("b"), "new-b");
}

#[test]
fn merging_leads_all_scans_to_one() {
    let scans = vec![Some(String::from("a")), None, Some(String::from("b"))];
    let map = GuidMap::merging(&scans, "one");
    assert_eq!(map.resolve("a"), "one");
    assert_eq!(map.resolve("b"), "one");
    assert_eq!(map.resolve("c"), "c");
}

#[test]
fn all_metadata_of_a_scan_is_carried_over() {
    assert_eq!(plan_scan(&bare_scan_meta()).len(), 0);
    let meta = ScanMeta {
        texts: TextInfo {
            name: Some(String::from("n")),
            description: Some(String::from("d")),
            sensor_vendor: Some(String::from("v")),
            sensor_model: Some(String::from("m")),
            sensor_serial: Some(String::from("s")),
        },
        has_acquisition_start: true,
        has_acquisition_end: true,
        has_transform: true,
        has_color_limits: true,
        has_intensity_limits: true,
    };
    assert_eq!(
        format!("{:?}", plan_scan(&meta)),
        "[Text(Name, \"n\"), Text(Description, \"d\"), Text(SensorVendor, \"v\"), \
         Text(SensorModel, \"m\"), Text(SensorSerial, \"s\"), AcquisitionStart, AcquisitionEnd, \
         Transform, ColorLimits, IntensityLimits]"
    );
}

#[test]
fn all_of_an_image_is_carried_over() {
    let mut map = GuidMap::new();
    map.insert("scan", "new-scan");
    let mut image = bare_image(Some("image"), Some("scan"));
    image.texts.sensor_model = Some(String::from("m"));
    image.has_acquisition = true;
    image.has_transform = true;
    image.preview_mask = Some(false);
    image.projection = Some((ProjectionKind::Cylindrical, true));
    let plan = plan_image(&image, "spare", &map);
    assert_eq!(plan.guid, "image");
    assert_eq!(
        format!("{:?}", plan.steps),
        "[Text(SensorModel, \"m\"), Acquisition, PointcloudGuid(\"new-scan\"), Transform, \
         Preview { mask: false }, Projection { kind: Cylindrical, mask: true }, Finish]"
    );
}

#[test]
fn an_image_without_identifier_gets_another() {
    let image = bare_image(None, None);
    let plan = plan_image(&image, "spare", &GuidMap::new());
    assert_eq!(plan.guid, "spare");
    assert_eq!(format!("{:?}", plan.steps), "[Finish]");
    assert!(is_guid(&plan_fresh_image(&image, &GuidMap::new()).guid));
}

#[test]
fn an_image_of_an_unknown_scan_keeps_its_reference() {
    let plan = plan_image(&bare_image(None, Some("lost")), "spare", &GuidMap::new());
    assert_eq!(
        format!("{:?}", plan.steps),
        "[PointcloudGuid(\"lost\"), Finish]"
    );
}

#[test]
fn opening_of_a_grid_job() {
    let job = GridJob::new(16, 1, true, 2);
    assert_eq!(
        shown(&job.open_as("file")),
        vec![
            "[Старт] Структурированное прореживание E57 (Вариант 1: децимация сетки k = 2)",
            "AnnounceReduction { factor: 4 }",
            "CreateE57 { guid: \"file\" }",
        ]
    );
    let idle = GridJob::new(16, 1, false, 2);
    assert_eq!(
        shown(&idle.open_as("file")),
        vec![
            "[Старт] Структурированное прореживание E57 (Вариант 1: децимация сетки k = 1)",
            "CreateE57 { guid: \"file\" }",
        ]
    );
    match job.open().pop() {
        Some(Action::CreateE57 { guid }) => assert!(is_guid(&guid)),
        _ => panic!("the file is created last"),
    }
}

#[test]
fn a_grid_job_from_start_to_end() {
    let mut job = GridJob::new(16, 1, true, 2);
    let mut source = scan(Some("old"));
    source.meta.texts.name = Some(String::from("Холл"));
    source.meta.has_transform = true;
    source.row_min = Some(10);
    assert_eq!(
        shown(&job.begin_scan_as(&source, "new")),
        vec![
            "Обработка структурированного скана 1/1 (Холл, исходно ячеек в сетке: 16)...",
            "AddPointcloud { guid: \"new\", fields: [CartesianX, CartesianY, CartesianZ, \
             CartesianInvalidState, RowIndex, ColumnIndex] }",
            "Carry(Text(Name, \"Холл\"))",
            "Carry(Transform)",
        ]
    );
    assert_eq!(job.scan_origin().row, 10);
    assert_eq!(job.scan_origin().column, 0);

    let mut records = Vec::new();
    for row in 10..14 {
        for column in 0..4 {
            if let Some(values) = job.offer(row, column, CoordinateState::Valid, None, None) {
                assert_eq!(job.wrote(), None);
                records.push(values);
            }
        }
    }
    assert_eq!(job.processed(), 16);
    assert_eq!(job.written(), 4);
    assert_eq!(
        records[3],
        vec![
            FieldValue::X,
            FieldValue::Y,
            FieldValue::Z,
            FieldValue::Integer(0),
            FieldValue::Integer(1),
            FieldValue::Integer(1),
        ]
    );
    assert_eq!(
        shown(&job.end_scan()),
        vec!["FinishPointcloud", "  -> Скан 1 записан: 4 ячеек сетки"]
    );
    assert_eq!(
        shown(&job.copy_images(&vec![bare_image(Some("image"), Some("old"))])),
        vec![
            "Копирование фотопанорам и привязка к децимированным сканам...",
            "Progress(Percent(90))",
            "CopyImage { index: 0, plan: ImagePlan { guid: \"image\", \
             steps: [PointcloudGuid(\"new\"), Finish] } }",
            "✔️ Скопировано фотопанорам: 1",
            "Progress(Percent(98))",
            "FinishFile",
        ]
    );
    assert_eq!(
        shown(&job.conclude("0.10")),
        vec![
            "✔️ Всего точек записано в результирующий файл: 4",
            "[Конец] Децимация структурированного E57 завершена за 0.10 сек.",
        ]
    );
}

#[test]
fn each_scan_gets_an_identifier_of_its_own() {
    let mut job = GridJob::new(0, 2, true, 2);
    let mut guids = Vec::new();
    for name in ["a", "b"] {
        for action in job.begin_scan(&scan(Some(name))) {
            if let Action::AddPointcloud { guid, .. } = action {
                assert!(is_guid(&guid));
                guids.push(guid);
            }
        }
    }
    assert_ne!(guids[0], guids[1]);
    let images = vec![bare_image(Some("i"), Some("b")), bare_image(Some("j"), Some("a"))];
    let actions = shown(&job.copy_images(&images));
    assert!(actions[2].contains(&guids[1]));
    assert!(actions[3].contains(&guids[0]));
}

#[test]
fn openings_of_point_jobs() {
    for pipeline in [Pipeline::LasToLas, Pipeline::E57ToLas] {
        let job = PointJob::new_as(pipeline, 10, true, true, "cloud");
        assert_eq!(shown(&job.open_as("file")), vec!["CreateLas"]);
        assert_eq!(job.close(&Vec::new(), &Vec::new()).len(), 0);
    }
    let job = PointJob::new_as(Pipeline::LasToE57, 10, false, false, "cloud");
    assert_eq!(
        shown(&job.open_as("file")),
        vec![
            "CreateE57 { guid: \"file\" }",
            "AddPointcloud { guid: \"cloud\", fields: [CartesianX, CartesianY, CartesianZ, \
             Intensity] }",
        ]
    );
    let job = PointJob::new_as(Pipeline::UnstructuredE57, 10, true, false, "cloud");
    assert_eq!(
        shown(&job.open_as("file"))[1],
        "AddPointcloud { guid: \"cloud\", fields: [CartesianX, CartesianY, CartesianZ, \
         ColorRed, ColorGreen, ColorBlue] }"
    );
    match PointJob::new(Pipeline::LasToE57, 10, false, false).open().pop() {
        Some(Action::AddPointcloud { guid, .. }) => assert!(is_guid(&guid)),
        _ => panic!("the point cloud is begun last"),
    }
}

#[test]
fn scans_are_announced_only_among_several() {
    let job = PointJob::new(Pipeline::E57ToLas, 10, false, false);
    assert!(job.begin_scan(0, 1).is_none());
    match job.begin_scan(1, 2) {
        Some(Action::Log(line)) => assert_eq!(line.text(), "Чтение скана 2/2..."),
        _ => panic!("the scan is announced"),
    }
}

#[test]
fn a_point_job_from_start_to_end() {
    let mut job = PointJob::new_as(Pipeline::UnstructuredE57, 3, true, true, "cloud");
    assert!(job.offer(PointOffer::Voxel((1, 1, 1))));
    let color = Rgb8 {
        red: 1,
        green: 2,
        blue: 3,
    };
    assert_eq!(
        job.record(Some(color), None),
        vec![
            FieldValue::X,
            FieldValue::Y,
            FieldValue::Z,
            FieldValue::Integer(1),
            FieldValue::Integer(2),
            FieldValue::Integer(3),
            FieldValue::Integer(0),
        ]
    );
    assert_eq!(job.wrote(), None);
    assert!(!job.offer(PointOffer::Voxel((1, 1, 1))));
    assert!(!job.offer(PointOffer::Invalid));
    assert_eq!(job.processed(), 3);
    assert_eq!(job.written(), 1);

    let scans = vec![Some(String::from("a")), Some(String::from("b"))];
    assert_eq!(
        shown(&job.close(&scans, &Vec::new())),
        vec!["FinishPointcloud", "FinishFile"]
    );
    let images = vec![bare_image(Some("i"), Some("b")), bare_image(Some("j"), Some("c"))];
    assert_eq!(
        shown(&job.close(&scans, &images)),
        vec![
            "FinishPointcloud",
            "CopyImage { index: 0, plan: ImagePlan { guid: \"i\", \
             steps: [PointcloudGuid(\"cloud\"), Finish] } }",
            "CopyImage { index: 1, plan: ImagePlan { guid: \"j\", \
             steps: [PointcloudGuid(\"c\"), Finish] } }",
            "✔️ Скопировано фотопанорам: 2",
            "FinishFile",
        ]
    );
    assert_eq!(
        shown(&job.conclude("2.00")),
        vec!["✔️ Записано точек: 1", "[Конец] Обработка завершена за 2.00 сек."]
    );
}

#[test]
fn closing_of_a_converted_las_file() {
    let job = PointJob::new(Pipeline::LasToE57, 0, false, false);
    assert_eq!(
        shown(&job.close(&Vec::new(), &Vec::new())),
        vec!["FinishPointcloud", "FinishFile"]
    );
}

/// Which cells of a grid of four by four are written, by position.
fn written(
    output: PointCloudFormat,
    is_structured: bool,
    method: ThinningMethod,
    stride: usize,
    cube: i64,
) -> Vec<i64> {
    let pipeline = choose_pipeline(PointCloudFormat::E57, output, is_structured, method);
    let mut positions = Vec::new();
    if pipeline == Pipeline::StructuredE57 {
        let mut job = GridJob::new(16, 1, true, stride);
        job.begin_scan(&scan(None));
        for i in 0..16 {
            let kept = job.offer(i / 4, i % 4, CoordinateState::Valid, None, None);
            if kept.is_some() {
                job.wrote();
                positions.push(i);
            }
        }
    } else {
        let mut job = PointJob::new(pipeline, 16, false, false);
        for i in 0..16 {
            let key = (i / 4 / cube, i % 4 / cube, 0);
            if job.offer(offer_for(CoordinateState::Valid, Some(key))) {
                job.wrote();
                positions.push(i);
            }
        }
    }
    positions
}

#[test]
fn settings_that_have_no_say() {
    let (las, e57) = (PointCloudFormat::Las, PointCloudFormat::E57);
    let (grid, voxel) = (ThinningMethod::GridStride, ThinningMethod::VoxelGrid);
    assert_eq!(written(e57, true, grid, 2, 1), vec![0, 2, 8, 10]);
    assert_eq!(written(e57, true, grid, 2, 4), vec![0, 2, 8, 10]);
    assert_eq!(written(e57, true, voxel, 2, 4), vec![0]);
    assert_eq!(written(e57, true, voxel, 3, 4), vec![0]);
    for method in [grid, voxel] {
        for stride in [2, 3] {
            assert_eq!(written(las, true, method, stride, 2), vec![0, 2, 8, 10]);
            assert_eq!(written(e57, false, method, stride, 1).len(), 16);
        }
    }
}

#[test]
fn points_survive_las_and_come_back_in_order() {
    let points = [(1u8, 2u8, 3u8, 40u16), (255, 0, 128, 65_535), (7, 7, 7, 0)];
    let mut there = PointJob::new(Pipeline::E57ToLas, points.len(), true, true);
    let mut las = Vec::new();
    for (red, green, blue, intensity) in points {
        assert!(there.offer(offer_for(CoordinateState::Valid, None)));
        there.wrote();
        las.push((red as u16 * 257, green as u16 * 257, blue as u16 * 257, intensity));
    }
    let mut back = PointJob::new(Pipeline::LasToE57, las.len(), true, true);
    let mut records = Vec::new();
    for (red, green, blue, intensity) in las {
        assert!(back.offer(offer_for(CoordinateState::Valid, None)));
        records.push(back.record(Some(narrow_color(red, green, blue)), Some(intensity)));
        back.wrote();
    }
    assert_eq!(back.written(), points.len());
    for ((red, green, blue, intensity), record) in points.iter().zip(records) {
        assert_eq!(
            record[3..].to_vec(),
            vec![
                FieldValue::Integer(*red as i64),
                FieldValue::Integer(*green as i64),
                FieldValue::Integer(*blue as i64),
                FieldValue::Integer(*intensity as i64),
            ]
        );
    }
}
