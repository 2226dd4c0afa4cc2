use thin_las::grid::GridCell;
use thin_las::record::{
    narrow_channel, narrow_color, summarize_scans, CoordinateState, FieldValue, RecordField,
    RecordLayout, Rgb8, ScanInfo, ScanSummary, INDEX_MAX,
};

const CELL: GridCell = GridCell { row: 3, column: 4 };
const COLOR: Rgb8 = Rgb8 {
    red: 10,
    green: 20,
    blue: 30,
};

#[test]
fn full_prototype_and_record() {
    let layout = RecordLayout::structured(true, true, true);
    assert_eq!(
        layout.prototype(),
        vec![
            RecordField::CartesianX,
            RecordField::CartesianY,
            RecordField::CartesianZ,
            RecordField::CartesianInvalidState,
            RecordField::RowIndex,
            RecordField::ColumnIndex,
            RecordField::ColorRed,
            RecordField::ColorGreen,
            RecordField::ColorBlue,
            RecordField::Intensity,
        ]
    );
    assert_eq!(
        layout.record(CoordinateState::Direction, CELL, Some(COLOR), Some(500)),
        vec![
            FieldValue::X,
            FieldValue::Y,
            FieldValue::Z,
            FieldValue::Integer(1),
            FieldValue::Integer(3),
            FieldValue::Integer(4),
            FieldValue::Integer(10),
            FieldValue::Integer(20),
            FieldValue::Integer(30),
            FieldValue::Integer(500),
        ]
    );
}

#[test]
fn merged_records_have_no_grid() {
    let layout = RecordLayout::merged(false, true);
    assert_eq!(
        layout.prototype(),
        vec![
            RecordField::CartesianX,
            RecordField::CartesianY,
            RecordField::CartesianZ,
            RecordField::Intensity,
        ]
    );
    assert_eq!(
        layout.record(CoordinateState::Valid, CELL, Some(COLOR), Some(9)),
        vec![FieldValue::X, FieldValue::Y, FieldValue::Z, FieldValue::Integer(9)]
    );
}

#[test]
fn what_a_point_lacks_is_zero() {
    let layout = RecordLayout::merged(true, true);
    let mut expected = vec![FieldValue::X, FieldValue::Y, FieldValue::Z];
    for _ in 0..4 {
        expected.push(FieldValue::Integer(0));
    }
    assert_eq!(layout.record(CoordinateState::Valid, CELL, None, None), expected);
}

#[test]
fn records_fit_their_prototypes() {
    for bits in 0..8 {
        let layout = RecordLayout::structured(bits & 1 != 0, bits & 2 != 0, bits & 4 != 0);
        let fields = layout.prototype();
        let corner = GridCell {
            row: INDEX_MAX,
            column: 0,
        };
        let values = layout.record(CoordinateState::Invalid, corner, Some(COLOR), Some(u16::MAX));
        assert_eq!(fields.len(), values.len());
        for (field, value) in fields.iter().zip(values) {
            match (field.integer_range(), value) {
                (Some((least, most)), FieldValue::Integer(n)) => assert!(least <= n && n <= most),
                (None, FieldValue::Integer(_)) => panic!("an integer in a coordinate field"),
                (range, _) => assert_eq!(range, None),
            }
        }
    }
}

#[test]
fn state_codes() {
    assert_eq!(CoordinateState::Valid.state_code(), 0);
    assert_eq!(CoordinateState::Direction.state_code(), 1);
    assert_eq!(CoordinateState::Invalid.state_code(), 2);
}

#[test]
fn integer_ranges() {
    assert_eq!(RecordField::CartesianX.integer_range(), None);
    assert_eq!(RecordField::CartesianInvalidState.integer_range(), Some((0, 2)));
    assert_eq!(RecordField::RowIndex.integer_range(), Some((0, u32::MAX as i64)));
    assert_eq!(RecordField::ColumnIndex.integer_range(), Some((0, u32::MAX as i64)));
    assert_eq!(RecordField::ColorBlue.integer_range(), Some((0, 255)));
    assert_eq!(RecordField::Intensity.integer_range(), Some((0, 65_535)));
}

#[test]
fn sixteen_bit_colors_keep_their_upper_half() {
    assert_eq!(narrow_channel(0), 0);
    assert_eq!(narrow_channel(255), 255);
    assert_eq!(narrow_channel(256), 1);
    assert_eq!(narrow_channel(0xabcd), 0xab);
    assert_eq!(narrow_channel(u16::MAX), 255);
    assert_eq!(
        narrow_color(7, 0x1234, 65_280),
        Rgb8 {
            red: 7,
            green: 0x12,
            blue: 255,
        }
    );
}

fn scan(records: u64, has_color: bool, has_intensity: bool, has_row_column: bool) -> ScanInfo {
    ScanInfo {
        records,
        has_color,
        has_intensity,
        has_row_column,
    }
}

#[test]
fn scans_are_summed_up() {
    let scans = vec![
        scan(10, false, true, false),
        scan(5, true, false, false),
        scan(0, false, false, false),
    ];
    assert_eq!(
        summarize_scans(&scans),
        ScanSummary {
            total_points: 15,
            has_color: true,
            has_intensity: true,
            is_structured: false,
        }
    );
    assert_eq!(
        summarize_scans(&Vec::new()),
        ScanSummary {
            total_points: 0,
            has_color: false,
            has_intensity: false,
            is_structured: false,
        }
    );
    assert!(summarize_scans(&vec![scan(u64::MAX, false, false, true)]).is_structured);
}

#[test]
fn widened_colors_are_narrowed_back() {
    for channel in 0..=u8::MAX {
        let wide = (channel as f32 / 255.0 * u16::MAX as f32).round() as u16;
        assert_eq!(wide, channel as u16 * 257);
        assert_eq!(narrow_channel(wide), channel);
    }
}

#[test]
fn unknown_positions_are_written_as_zero() {
    let layout = RecordLayout::structured(true, false, false);
    let zero = FieldValue::Zero;
    assert_eq!(
        layout.record(CoordinateState::Invalid, CELL, None, None),
        vec![
            zero,
            zero,
            zero,
            FieldValue::Integer(2),
            FieldValue::Integer(3),
            FieldValue::Integer(4),
        ]
    );
    let own = vec![FieldValue::X, FieldValue::Y, FieldValue::Z];
    assert_eq!(CoordinateState::Valid.coordinate_values(), own);
    assert_eq!(CoordinateState::Direction.coordinate_values(), own);
    assert_eq!(CoordinateState::Invalid.coordinate_values(), vec![zero, zero, zero]);
    assert!(CoordinateState::Direction.has_coordinates());
    assert!(!CoordinateState::Invalid.has_coordinates());
}
