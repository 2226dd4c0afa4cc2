use std::io::Cursor;

use thin_las::copying::{CopyStep, ImageMeta, ProjectionKind, ScanMeta, TextField, TextInfo};
use thin_las::guid::fresh_guid;
use thin_las::job::{Action, GridJob, GridScan, PointJob};
use thin_las::pipeline::{choose_pipeline, Pipeline, PointCloudFormat, ThinningMethod};
use thin_las::record::{summarize_scans, CoordinateState, FieldValue, RecordField, Rgb8, ScanInfo};
use thin_las::run::offer_for;

fn integer(name: e57::RecordName, min: i64, max: i64) -> e57::Record {
    e57::Record {
        name,
        data_type: e57::RecordDataType::Integer { min, max },
    }
}

fn record(field: &RecordField) -> e57::Record {
    match field {
        RecordField::CartesianX => e57::Record::CARTESIAN_X_F64,
        RecordField::CartesianY => e57::Record::CARTESIAN_Y_F64,
        RecordField::CartesianZ => e57::Record::CARTESIAN_Z_F64,
        RecordField::CartesianInvalidState => e57::Record::CARTESIAN_INVALID_STATE,
        RecordField::ColorRed => e57::Record::COLOR_RED_U8,
        RecordField::ColorGreen => e57::Record::COLOR_GREEN_U8,
        RecordField::ColorBlue => e57::Record::COLOR_BLUE_U8,
        RecordField::Intensity => e57::Record::INTENSITY_U16,
        RecordField::RowIndex => {
            let (min, max) = field.integer_range().unwrap();
            integer(e57::RecordName::RowIndex, min, max)
        }
        RecordField::ColumnIndex => {
            let (min, max) = field.integer_range().unwrap();
            integer(e57::RecordName::ColumnIndex, min, max)
        }
    }
}

fn raw(values: &[FieldValue], x: f64, y: f64, z: f64) -> e57::RawValues {
    values
        .iter()
        .map(|value| match value {
            FieldValue::X => e57::RecordValue::Double(x),
            FieldValue::Y => e57::RecordValue::Double(y),
            FieldValue::Z => e57::RecordValue::Double(z),
            FieldValue::Zero => e57::RecordValue::Double(0.0),
            FieldValue::Integer(n) => e57::RecordValue::Integer(*n),
        })
        .collect()
}

fn infos(scans: &[e57::PointCloud]) -> Vec<ScanInfo> {
    scans
        .iter()
        .map(|pc| ScanInfo {
            records: pc.records,
            has_color: pc.has_color(),
            has_intensity: pc.has_intensity(),
            has_row_column: pc.has_row_column(),
        })
        .collect()
}

fn texts(name: &Option<String>) -> TextInfo {
    TextInfo {
        name: name.clone(),
        description: None,
        sensor_vendor: None,
        sensor_model: None,
        sensor_serial: None,
    }
}

fn eight_bits(level: f32) -> u8 {
    (level * 255.0).round() as u8
}

fn position(cartesian: &e57::CartesianCoordinate) -> (CoordinateState, f64, f64, f64) {
    match cartesian {
        e57::CartesianCoordinate::Valid { x, y, z } => (CoordinateState::Valid, *x, *y, *z),
        e57::CartesianCoordinate::Direction { x, y, z } => {
            (CoordinateState::Direction, *x, *y, *z)
        }
        e57::CartesianCoordinate::Invalid => (CoordinateState::Invalid, 0.0, 0.0, 0.0),
    }
}

/// Decimates the grids of an E57 file and copies its spherical images.
fn decimate(source: Vec<u8>, k: usize) -> (usize, Vec<u8>) {
    let mut reader = e57::E57Reader::new(Cursor::new(source)).unwrap();
    let scans = reader.pointclouds();
    let summary = summarize_scans(&infos(&scans));
    assert_eq!(
        choose_pipeline(
            PointCloudFormat::E57,
            PointCloudFormat::E57,
            summary.is_structured,
            ThinningMethod::GridStride
        ),
        Pipeline::StructuredE57
    );
    let mut job = GridJob::new(summary.total_points as usize, scans.len(), true, k);
    let mut target = Cursor::new(Vec::new());
    let mut file_guid = String::new();
    for action in job.open() {
        if let Action::CreateE57 { guid } = action {
            file_guid = guid;
        }
    }
    {
        let mut writer = e57::E57Writer::new(&mut target, &file_guid).unwrap();
        for scan in &scans {
            let info = GridScan {
                guid: scan.guid.clone(),
                records: scan.records,
                has_invalid_state: scan
                    .prototype
                    .iter()
                    .any(|r| r.name == e57::RecordName::CartesianInvalidState),
                has_color: scan.has_color(),
                has_intensity: scan.has_intensity(),
                row_min: scan.index_bounds.as_ref().and_then(|b| b.row_min),
                column_min: scan.index_bounds.as_ref().and_then(|b| b.column_min),
                meta: ScanMeta {
                    texts: texts(&scan.name),
                    has_acquisition_start: false,
                    has_acquisition_end: false,
                    has_transform: false,
                    has_color_limits: false,
                    has_intensity_limits: false,
                },
            };
            let mut opening = None;
            let mut name = None;
            for action in job.begin_scan(&info) {
                match action {
                    Action::AddPointcloud { guid, fields } => opening = Some((guid, fields)),
                    Action::Carry(CopyStep::Text(TextField::Name, text)) => name = Some(text),
                    Action::Log(_) => {}
                    other => panic!("{:?}", other),
                }
            }
            let (guid, fields) = opening.unwrap();
            let mut cloud = writer
                .add_pointcloud(&guid, fields.iter().map(record).collect())
                .unwrap();
            cloud.set_name(name);
            let mut points = reader.pointcloud_simple(scan).unwrap();
            points.apply_pose(false);
            for point in points {
                let point = point.unwrap();
                let (state, x, y, z) = position(&point.cartesian);
                let color = point.color.map(|c| Rgb8 {
                    red: eight_bits(c.red),
                    green: eight_bits(c.green),
                    blue: eight_bits(c.blue),
                });
                if let Some(values) = job.offer(point.row, point.column, state, color, None) {
                    cloud.add_point(raw(&values, x, y, z)).unwrap();
                    job.wrote();
                }
            }
            assert!(matches!(job.end_scan()[0], Action::FinishPointcloud));
            cloud.finalize().unwrap();
        }

        let images = reader.images();
        let metas = images
            .iter()
            .map(|image| ImageMeta {
                guid: image.guid.clone(),
                texts: texts(&image.name),
                has_acquisition: false,
                pointcloud_guid: image.pointcloud_guid.clone(),
                has_transform: false,
                preview_mask: None,
                projection: match &image.projection {
                    Some(e57::Projection::Spherical(s)) => {
                        Some((ProjectionKind::Spherical, s.mask.is_some()))
                    }
                    _ => None,
                },
            })
            .collect();
        for action in job.copy_images(&metas) {
            match action {
                Action::CopyImage { index, plan } => {
                    let mut image = writer.add_image(&plan.guid).unwrap();
                    for step in plan.steps {
                        match step {
                            CopyStep::Text(TextField::Name, text) => image.set_name(&text),
                            CopyStep::PointcloudGuid(guid) => image.set_pointcloud_guid(&guid),
                            CopyStep::Projection { kind, mask } => {
                                assert_eq!(kind, ProjectionKind::Spherical);
                                assert!(!mask);
                                match images[index].projection.clone() {
                                    Some(e57::Projection::Spherical(s)) => {
                                        let mut data = Vec::new();
                                        reader.blob(&s.blob.data, &mut data).unwrap();
                                        image
                                            .add_spherical(
                                                s.blob.format,
                                                &mut Cursor::new(data),
                                                s.properties,
                                                None,
                                            )
                                            .unwrap();
                                    }
                                    _ => panic!("Expected spherical projection"),
                                }
                            }
                            CopyStep::Finish => image.finalize().unwrap(),
                            other => panic!("{:?}", other),
                        }
                    }
                }
                Action::FinishFile => writer.finalize().unwrap(),
                Action::Log(_) | Action::Progress(_) => {}
                other => panic!("{:?}", other),
            }
        }
    }
    (job.written(), target.into_inner())
}

/// Thins the points of an E57 file by cubes and tells how many stay.
fn thin(source: Vec<u8>, voxel: f64) -> usize {
    let mut reader = e57::E57Reader::new(Cursor::new(source)).unwrap();
    let scans = reader.pointclouds();
    let summary = summarize_scans(&infos(&scans));
    let pipeline = choose_pipeline(
        PointCloudFormat::E57,
        PointCloudFormat::E57,
        summary.is_structured,
        ThinningMethod::VoxelGrid,
    );
    assert_eq!(pipeline, Pipeline::UnstructuredE57);
    let mut job = PointJob::new(
        pipeline,
        summary.total_points as usize,
        summary.has_color,
        summary.has_intensity,
    );
    for scan in &scans {
        let mut points = reader.pointcloud_simple(scan).unwrap();
        points.apply_pose(true);
        for point in points {
            let (state, x, y, z) = position(&point.unwrap().cartesian);
            let cube = (
                (x / voxel).round() as i64,
                (y / voxel).round() as i64,
                (z / voxel).round() as i64,
            );
            if job.offer(offer_for(state, Some(cube))) {
                job.wrote();
            }
        }
    }
    job.written()
}

#[test]
fn test_structured_e57_with_spherical_panorama() {
    let input_pc_guid = fresh_guid();
    let input_img_guid = fresh_guid();
    let jpeg = vec![0xFF, 0xD8, 0xFF, 0xE0, 0x00, 0x10, 0x4A, 0x46, 0x49, 0x46];

    let mut source = Cursor::new(Vec::new());
    {
        let mut writer = e57::E57Writer::new(&mut source, &fresh_guid()).unwrap();
        let prototype = vec![
            e57::Record::CARTESIAN_X_F64,
            e57::Record::CARTESIAN_Y_F64,
            e57::Record::CARTESIAN_Z_F64,
            e57::Record::CARTESIAN_INVALID_STATE,
            integer(e57::RecordName::RowIndex, 0, 255),
            integer(e57::RecordName::ColumnIndex, 0, 255),
            e57::Record::COLOR_RED_U8,
            e57::Record::COLOR_GREEN_U8,
            e57::Record::COLOR_BLUE_U8,
        ];
        let mut pc_writer = writer.add_pointcloud(&input_pc_guid, prototype).unwrap();
        pc_writer.set_name(Some("Test Structured Scan 4x4".to_string()));
        for r in 0..4 {
            for c in 0..4 {
                let is_valid = !(r == 3 && c == 3);
                let invalid_code = if is_valid { 0 } else { 1 };
                pc_writer
                    .add_point(vec![
                        e57::RecordValue::Double(r as f64 * 2.0),
                        e57::RecordValue::Double(c as f64 * 2.0),
                        e57::RecordValue::Double(1.0),
                        e57::RecordValue::Integer(invalid_code),
                        e57::RecordValue::Integer(r),
                        e57::RecordValue::Integer(c),
                        e57::RecordValue::Integer(255),
                        e57::RecordValue::Integer(0),
                        e57::RecordValue::Integer(0),
                    ])
                    .unwrap();
            }
        }
        pc_writer.finalize().unwrap();

        let mut img_writer = writer.add_image(&input_img_guid).unwrap();
        img_writer.set_name("360 Panorama");
        img_writer.set_pointcloud_guid(&input_pc_guid);
        let props = e57::SphericalImageProperties {
            width: 1024,
            height: 512,
            pixel_width: std::f64::consts::PI / 512.0,
            pixel_height: std::f64::consts::PI / 512.0,
        };
        img_writer
            .add_spherical(
                e57::ImageFormat::Jpeg,
                &mut Cursor::new(jpeg.clone()),
                props,
                None,
            )
            .unwrap();
        img_writer.finalize().unwrap();
        writer.finalize().unwrap();
    }

    let (written, target) = decimate(source.into_inner(), 2);
    assert_eq!(written, 4);

    let mut reader = e57::E57Reader::new(Cursor::new(target)).unwrap();
    assert_eq!(reader.pointclouds().len(), 1);
    let out_pc = reader.pointclouds()[0].clone();
    assert_eq!(out_pc.records, 4);
    assert!(
        out_pc.has_row_column(),
        "Скан обязан остаться структурированным!"
    );
    assert_eq!(out_pc.name.as_deref(), Some("Test Structured Scan 4x4"));

    let mut rows = Vec::new();
    let mut cols = Vec::new();
    for point in reader.pointcloud_simple(&out_pc).unwrap() {
        let point = point.unwrap();
        rows.push(point.row);
        cols.push(point.column);
        assert_eq!(point.color.unwrap().red, 1.0);
    }
    assert_eq!(rows.len(), 4, "Должно быть ровно 4 точки!");
    assert!(rows.iter().all(|&r| r == 0 || r == 1));
    assert!(cols.iter().all(|&c| c == 0 || c == 1));
    assert_eq!(rows, vec![0, 0, 1, 1]);
    assert_eq!(cols, vec![0, 1, 0, 1]);

    assert_eq!(reader.images().len(), 1, "Фотопанорама обязана сохраниться!");
    let out_img = reader.images()[0].clone();
    assert_eq!(out_img.name.as_deref(), Some("360 Panorama"));
    assert_eq!(out_img.guid, Some(input_img_guid));
    assert_ne!(out_pc.guid, Some(input_pc_guid));
    assert_eq!(
        out_img.pointcloud_guid.as_deref(),
        out_pc.guid.as_deref(),
        "Панорама должна ссылаться на новый GUID облака!"
    );
    if let Some(e57::Projection::Spherical(spherical)) = &out_img.projection {
        assert_eq!(spherical.properties.width, 1024);
        assert_eq!(spherical.properties.height, 512);
        let mut blob_data = Vec::new();
        reader
            .blob(&spherical.blob.data, &mut blob_data)
            .unwrap();
        assert_eq!(blob_data, jpeg);
    } else {
        panic!("Expected spherical projection");
    }
}

#[test]
fn test_structured_e57_voxel_grid_thinning() {
    let mut source = Cursor::new(Vec::new());
    {
        let mut writer = e57::E57Writer::new(&mut source, &fresh_guid()).unwrap();
        let prototype = vec![
            e57::Record::CARTESIAN_X_F64,
            e57::Record::CARTESIAN_Y_F64,
            e57::Record::CARTESIAN_Z_F64,
            integer(e57::RecordName::RowIndex, 0, 255),
            integer(e57::RecordName::ColumnIndex, 0, 255),
        ];
        let mut pc_writer = writer.add_pointcloud(&fresh_guid(), prototype).unwrap();
        for r in 0..4 {
            for c in 0..4 {
                pc_writer
                    .add_point(vec![
                        e57::RecordValue::Double(r as f64 * 0.1),
                        e57::RecordValue::Double(c as f64 * 0.1),
                        e57::RecordValue::Double(1.0),
                        e57::RecordValue::Integer(r),
                        e57::RecordValue::Integer(c),
                    ])
                    .unwrap();
            }
        }
        pc_writer.finalize().unwrap();
        writer.finalize().unwrap();
    }
    assert_eq!(thin(source.into_inner(), 1.0), 1);
}
