//! The fields of an E57 point record, and the values that go into them.
//!
//! A point cloud declares its fields once, as a prototype; every record then gives one
//! value per field, in the same order.

use crate::grid::GridCell;
use vstd::prelude::*;

verus! {

/// The fields that records are made of.
#[derive(Clone, Copy, Debug, PartialEq, Eq, Structural)]
pub enum RecordField {
    CartesianX,
    CartesianY,
    CartesianZ,
    CartesianInvalidState,
    RowIndex,
    ColumnIndex,
    ColorRed,
    ColorGreen,
    ColorBlue,
    Intensity,
}

/// A value in a record: one of the point's coordinates, a coordinate of zero, or an
/// integer.
#[derive(Clone, Copy, Debug, PartialEq, Eq, Structural)]
pub enum FieldValue {
    X,
    Y,
    Z,
    Zero,
    Integer(i64),
}

/// A colour with eight bits per channel.
#[derive(Clone, Copy, Debug, PartialEq, Eq, Structural)]
pub struct Rgb8 {
    pub red: u8,
    pub green: u8,
    pub blue: u8,
}

/// What is known of a point's position.
#[derive(Clone, Copy, Debug, PartialEq, Eq, Structural)]
pub enum CoordinateState {
    /// The position is known.
    Valid,
    /// Only the direction is known.
    Direction,
    /// Nothing is known.
    Invalid,
}

/// Which optional fields a point cloud has.
#[derive(Clone, Copy, Debug, PartialEq, Eq, Structural)]
pub struct RecordLayout {
    /// Whether records tell how valid the position is.
    pub has_invalid_state: bool,
    /// Whether records give a row and a column.
    pub has_grid: bool,
    /// Whether records give a colour.
    pub has_color: bool,
    /// Whether records give an intensity.
    pub has_intensity: bool,
}

/// The largest row and column index that a record can hold.
pub const INDEX_MAX: i64 = 4_294_967_295;

impl RecordField {
    /// The smallest and the largest integer of an integer field; a coordinate has none.
    pub open spec fn range(self) -> Option<(i64, i64)> {
        match self {
            RecordField::CartesianX | RecordField::CartesianY | RecordField::CartesianZ => None,
            RecordField::CartesianInvalidState => Some((0, 2)),
            RecordField::RowIndex | RecordField::ColumnIndex => Some((0, INDEX_MAX)),
            RecordField::ColorRed | RecordField::ColorGreen | RecordField::ColorBlue => Some(
                (0, 255),
            ),
            RecordField::Intensity => Some((0, 65_535)),
        }
    }

    /// The smallest and the largest integer of an integer field; a coordinate has none.
    pub fn integer_range(self) -> (range: Option<(i64, i64)>)
        ensures
            range == self.range(),
    {
        match self {
            RecordField::CartesianX | RecordField::CartesianY | RecordField::CartesianZ => None,
            RecordField::CartesianInvalidState => Some((0, 2)),
            RecordField::RowIndex | RecordField::ColumnIndex => Some((0, INDEX_MAX)),
            RecordField::ColorRed | RecordField::ColorGreen | RecordField::ColorBlue => Some(
                (0, 255),
            ),
            RecordField::Intensity => Some((0, 65_535)),
        }
    }
}

impl CoordinateState {
    /// The number by which a record tells the state.
    pub open spec fn code(self) -> i64 {
        match self {
            CoordinateState::Valid => 0,
            CoordinateState::Direction => 1,
            CoordinateState::Invalid => 2,
        }
    }

    /// The coordinates that a record gives: the point's own, or zeros where nothing is
    /// known of its position.
    pub open spec fn coordinates(self) -> Seq<FieldValue> {
        match self {
            CoordinateState::Valid | CoordinateState::Direction => seq![
                FieldValue::X,
                FieldValue::Y,
                FieldValue::Z,
            ],
            CoordinateState::Invalid => seq![
                FieldValue::Zero,
                FieldValue::Zero,
                FieldValue::Zero,
            ],
        }
    }

    /// Whether a record gives the point's own coordinates, and not zeros.
    pub fn has_coordinates(self) -> (known: bool)
        ensures
            known == (self != CoordinateState::Invalid),
            known ==> self.coordinates() == seq![FieldValue::X, FieldValue::Y, FieldValue::Z],
            !known ==> self.coordinates() == seq![
                FieldValue::Zero,
                FieldValue::Zero,
                FieldValue::Zero,
            ],
    {
        match self {
            CoordinateState::Invalid => false,
            _ => true,
        }
    }

    /// The coordinates that a record gives.
    pub fn coordinate_values(self) -> (values: Vec<FieldValue>)
        ensures
            values@ == self.coordinates(),
    {
        let mut values: Vec<FieldValue> = Vec::new();
        if self.has_coordinates() {
            values.push(FieldValue::X);
            values.push(FieldValue::Y);
            values.push(FieldValue::Z);
        } else {
            values.push(FieldValue::Zero);
            values.push(FieldValue::Zero);
            values.push(FieldValue::Zero);
        }
        assert(values@ =~= self.coordinates());
        values
    }

    /// The number by which a record tells the state.
    pub fn state_code(self) -> (code: i64)
        ensures
            code == self.code(),
    {
        match self {
            CoordinateState::Valid => 0,
            CoordinateState::Direction => 1,
            CoordinateState::Invalid => 2,
        }
    }
}

/// The items that are there if a condition holds, and none otherwise.
pub open spec fn only_if<T>(condition: bool, items: Seq<T>) -> Seq<T> {
    if condition {
        items
    } else {
        Seq::empty()
    }
}

impl RecordLayout {
    /// The fields of a record, in order: the position, how valid it is, the grid
    /// indices, the colour, the intensity.
    pub open spec fn fields(self) -> Seq<RecordField> {
        seq![RecordField::CartesianX, RecordField::CartesianY, RecordField::CartesianZ] + only_if(
            self.has_invalid_state,
            seq![RecordField::CartesianInvalidState],
        ) + only_if(self.has_grid, seq![RecordField::RowIndex, RecordField::ColumnIndex]) + only_if(
            self.has_color,
            seq![RecordField::ColorRed, RecordField::ColorGreen, RecordField::ColorBlue],
        ) + only_if(self.has_intensity, seq![RecordField::Intensity])
    }

    /// The values of a record, in the order of the fields. Coordinates of which nothing is
    /// known, and a colour or an intensity that the point lacks, are written as zero.
    pub open spec fn values(
        self,
        state: CoordinateState,
        cell: GridCell,
        color: Option<Rgb8>,
        intensity: Option<u16>,
    ) -> Seq<FieldValue> {
        let rgb = match color {
            Some(rgb) => rgb,
            None => Rgb8 { red: 0, green: 0, blue: 0 },
        };
        let level = match intensity {
            Some(level) => level,
            None => 0,
        };
        state.coordinates() + only_if(
            self.has_invalid_state,
            seq![FieldValue::Integer(state.code())],
        ) + only_if(
            self.has_grid,
            seq![FieldValue::Integer(cell.row), FieldValue::Integer(cell.column)],
        ) + only_if(
            self.has_color,
            seq![
                FieldValue::Integer(rgb.red as i64),
                FieldValue::Integer(rgb.green as i64),
                FieldValue::Integer(rgb.blue as i64),
            ],
        ) + only_if(self.has_intensity, seq![FieldValue::Integer(level as i64)])
    }

    /// The layout of a decimated scan: it keeps the grid, and the state where the
    /// source has it.
    pub fn structured(has_invalid_state: bool, has_color: bool, has_intensity: bool) -> (layout:
        RecordLayout)
        ensures
            layout == (RecordLayout { has_invalid_state, has_grid: true, has_color, has_intensity }),
    {
        RecordLayout { has_invalid_state, has_grid: true, has_color, has_intensity }
    }

    /// The layout of a merged point cloud: positions without a grid, all of them valid.
    pub fn merged(has_color: bool, has_intensity: bool) -> (layout: RecordLayout)
        ensures
            layout == (RecordLayout {
                has_invalid_state: false,
                has_grid: false,
                has_color,
                has_intensity,
            }),
    {
        RecordLayout { has_invalid_state: false, has_grid: false, has_color, has_intensity }
    }

    /// The fields of a record, in order.
    pub fn prototype(self) -> (fields: Vec<RecordField>)
        ensures
            fields@ == self.fields(),
    {
        let mut fields: Vec<RecordField> = Vec::new();
        fields.push(RecordField::CartesianX);
        fields.push(RecordField::CartesianY);
        fields.push(RecordField::CartesianZ);
        if self.has_invalid_state {
            fields.push(RecordField::CartesianInvalidState);
        }
        if self.has_grid {
            fields.push(RecordField::RowIndex);
            fields.push(RecordField::ColumnIndex);
        }
        if self.has_color {
            fields.push(RecordField::ColorRed);
            fields.push(RecordField::ColorGreen);
            fields.push(RecordField::ColorBlue);
        }
        if self.has_intensity {
            fields.push(RecordField::Intensity);
        }
        assert(fields@ =~= self.fields());
        fields
    }

    /// The values of the record of a point, in the order of the fields.
    pub fn record(
        self,
        state: CoordinateState,
        cell: GridCell,
        color: Option<Rgb8>,
        intensity: Option<u16>,
    ) -> (values: Vec<FieldValue>)
        ensures
            values@ == self.values(state, cell, color, intensity),
    {
        let mut values = state.coordinate_values();
        let ghost position = values@;
        if self.has_invalid_state {
            values.push(FieldValue::Integer(state.state_code()));
        }
        let ghost with_state = values@;
        assert(with_state =~= position + only_if(
            self.has_invalid_state,
            seq![FieldValue::Integer(state.code())],
        ));
        if self.has_grid {
            values.push(FieldValue::Integer(cell.row));
            values.push(FieldValue::Integer(cell.column));
        }
        let ghost with_cell = values@;
        assert(with_cell =~= with_state + only_if(
            self.has_grid,
            seq![FieldValue::Integer(cell.row), FieldValue::Integer(cell.column)],
        ));
        let rgb = match color {
            Some(rgb) => rgb,
            None => Rgb8 { red: 0, green: 0, blue: 0 },
        };
        if self.has_color {
            values.push(FieldValue::Integer(rgb.red as i64));
            values.push(FieldValue::Integer(rgb.green as i64));
            values.push(FieldValue::Integer(rgb.blue as i64));
        }
        let ghost with_color = values@;
        assert(with_color =~= with_cell + only_if(
            self.has_color,
            seq![
                FieldValue::Integer(rgb.red as i64),
                FieldValue::Integer(rgb.green as i64),
                FieldValue::Integer(rgb.blue as i64),
            ],
        ));
        let level: u16 = match intensity {
            Some(level) => level,
            None => 0,
        };
        if self.has_intensity {
            values.push(FieldValue::Integer(level as i64));
        }
        assert(values@ =~= with_color + only_if(
            self.has_intensity,
            seq![FieldValue::Integer(level as i64)],
        ));
        values
    }
}

/// Whether a value fits a field: a coordinate its own field, a zero any coordinate, an
/// integer the range of the field.
pub open spec fn fits(field: RecordField, value: FieldValue) -> bool {
    match value {
        FieldValue::X => field == RecordField::CartesianX,
        FieldValue::Y => field == RecordField::CartesianY,
        FieldValue::Z => field == RecordField::CartesianZ,
        FieldValue::Zero => field == RecordField::CartesianX || field == RecordField::CartesianY
            || field == RecordField::CartesianZ,
        FieldValue::Integer(n) => match field.range() {
            Some((least, most)) => least <= n <= most,
            None => false,
        },
    }
}

/// Every record fits the prototype it was declared under: as many values as fields, and
/// each value within its field, provided the grid indices are in range where there is
/// a grid.
pub proof fn law_record_fits_prototype(
    layout: RecordLayout,
    state: CoordinateState,
    cell: GridCell,
    color: Option<Rgb8>,
    intensity: Option<u16>,
)
    requires
        layout.has_grid ==> 0 <= cell.row <= INDEX_MAX && 0 <= cell.column <= INDEX_MAX,
    ensures
        layout.values(state, cell, color, intensity).len() == layout.fields().len(),
        forall|i: int|
            0 <= i < layout.fields().len() ==> fits(
                #[trigger] layout.fields()[i],
                layout.values(state, cell, color, intensity)[i],
            ),
{
}

/// The eight bits kept of a sixteen-bit channel: the upper half, unless the value fits
/// eight bits as it stands.
pub open spec fn narrow(channel: u16) -> u8 {
    if channel > 255 {
        (channel / 256) as u8
    } else {
        channel as u8
    }
}

/// The eight bits kept of a sixteen-bit channel.
pub fn narrow_channel(channel: u16) -> (narrowed: u8)
    ensures
        narrowed == narrow(channel),
        channel <= 255 ==> narrowed == channel,
        channel > 255 ==> 256 * narrowed <= channel < 256 * (narrowed + 1),
{
    if channel > 255 {
        assert(channel >> 8 == channel / 256 && channel >> 8 < 256) by (bit_vector);
        (channel >> 8) as u8
    } else {
        channel as u8
    }
}

/// A colour with sixteen bits per channel, narrowed channel by channel.
pub fn narrow_color(red: u16, green: u16, blue: u16) -> (color: Rgb8)
    ensures
        color == (Rgb8 { red: narrow(red), green: narrow(green), blue: narrow(blue) }),
        red <= 255 ==> color.red == red,
        green <= 255 ==> color.green == green,
        blue <= 255 ==> color.blue == blue,
{
    Rgb8 { red: narrow_channel(red), green: narrow_channel(green), blue: narrow_channel(blue) }
}

/// What the library needs to know of a scan before its points are read.
#[derive(Clone, Copy, Debug, PartialEq, Eq, Structural)]
pub struct ScanInfo {
    pub records: u64,
    pub has_color: bool,
    pub has_intensity: bool,
    pub has_row_column: bool,
}

/// What holds of the scans of a file together.
#[derive(Clone, Copy, Debug, PartialEq, Eq, Structural)]
pub struct ScanSummary {
    /// The number of points in all scans.
    pub total_points: u64,
    /// Whether some scan has colours.
    pub has_color: bool,
    /// Whether some scan has intensities.
    pub has_intensity: bool,
    /// Whether some scan has a grid.
    pub is_structured: bool,
}

/// The number of points in a list of scans.
pub open spec fn point_total(scans: Seq<ScanInfo>) -> int
    decreases scans.len(),
{
    if scans.len() == 0 {
        0
    } else {
        point_total(scans.drop_last()) + scans.last().records
    }
}

proof fn lemma_point_total_grows(scans: Seq<ScanInfo>, n: int)
    requires
        0 <= n <= scans.len(),
    ensures
        0 <= point_total(scans.take(n)) <= point_total(scans),
    decreases scans.len(),
{
    if n < scans.len() {
        lemma_point_total_grows(scans.drop_last(), n);
        assert(scans.drop_last().take(n) =~= scans.take(n));
    } else {
        assert(scans.take(n) =~= scans);
        if scans.len() > 0 {
            lemma_point_total_grows(scans.drop_last(), n - 1);
        }
    }
}

/// Sums up the scans of a file.
pub fn summarize_scans(scans: &Vec<ScanInfo>) -> (summary: ScanSummary)
    requires
        point_total(scans@) <= u64::MAX,
    ensures
        summary.total_points == point_total(scans@),
        summary.has_color <==> exists|i: int| 0 <= i < scans.len() && scans@[i].has_color,
        summary.has_intensity <==> exists|i: int| 0 <= i < scans.len() && scans@[i].has_intensity,
        summary.is_structured <==> exists|i: int| 0 <= i < scans.len() && scans@[i].has_row_column,
{
    let mut summary = ScanSummary {
        total_points: 0,
        has_color: false,
        has_intensity: false,
        is_structured: false,
    };
    let mut n: usize = 0;
    while n < scans.len()
        invariant
            n <= scans.len(),
            point_total(scans@) <= u64::MAX,
            summary.total_points == point_total(scans@.take(n as int)),
            summary.has_color <==> exists|i: int| 0 <= i < n && scans@[i].has_color,
            summary.has_intensity <==> exists|i: int| 0 <= i < n && scans@[i].has_intensity,
            summary.is_structured <==> exists|i: int| 0 <= i < n && scans@[i].has_row_column,
        decreases scans.len() - n,
    {
        proof {
            assert(scans@.take(n + 1).drop_last() =~= scans@.take(n as int));
            lemma_point_total_grows(scans@, n + 1);
        }
        let scan = scans[n];
        summary = ScanSummary {
            total_points: summary.total_points + scan.records,
            has_color: summary.has_color || scan.has_color,
            has_intensity: summary.has_intensity || scan.has_intensity,
            is_structured: summary.is_structured || scan.has_row_column,
        };
        n = n + 1;
    }
    assert(scans@.take(n as int) =~= scans@);
    summary
}

/// The sixteen bits in which a channel of eight is widened so that the ends of the two
/// ranges meet.
pub open spec fn widened(channel: u8) -> u16 {
    (channel * 257) as u16
}

/// A colour that is widened to sixteen bits and narrowed again is the same colour, and
/// so is its record.
pub proof fn law_color_survives_widening(
    layout: RecordLayout,
    state: CoordinateState,
    cell: GridCell,
    color: Rgb8,
    intensity: Option<u16>,
)
    ensures
        ({
            let again = Rgb8 {
                red: narrow(widened(color.red)),
                green: narrow(widened(color.green)),
                blue: narrow(widened(color.blue)),
            };
            &&& again == color
            &&& layout.values(state, cell, Some(again), intensity) == layout.values(
                state,
                cell,
                Some(color),
                intensity,
            )
        }),
{
    lemma_channel_survives_widening(color.red);
    lemma_channel_survives_widening(color.green);
    lemma_channel_survives_widening(color.blue);
}

proof fn lemma_channel_survives_widening(channel: u8)
    ensures
        narrow(widened(channel)) == channel,
{
    if channel > 0 {
        assert(channel * 257 / 256 == channel);
    }
}

/// A channel that fits eight bits is kept as it stands; of a larger one the upper byte is
/// kept.
pub proof fn law_narrowing_keeps_the_upper_byte(channel: u16)
    ensures
        channel <= 255 ==> narrow(channel) == channel,
        channel > 255 ==> 256 * narrow(channel) <= channel < 256 * (narrow(channel) + 1),
{
}

/// Where a field stands among the fields of a record.
pub open spec fn field_rank(field: RecordField) -> int {
    match field {
        RecordField::CartesianX => 0,
        RecordField::CartesianY => 1,
        RecordField::CartesianZ => 2,
        RecordField::CartesianInvalidState => 3,
        RecordField::RowIndex => 4,
        RecordField::ColumnIndex => 5,
        RecordField::ColorRed => 6,
        RecordField::ColorGreen => 7,
        RecordField::ColorBlue => 8,
        RecordField::Intensity => 9,
    }
}

/// A sequence made of two holds what either holds.
pub proof fn lemma_sum_holds<T>(first: Seq<T>, second: Seq<T>, item: T)
    ensures
        (first + second).contains(item) <==> first.contains(item) || second.contains(item),
{
    let sum = first + second;
    if first.contains(item) {
        let i = choose|i: int| 0 <= i < first.len() && first[i] == item;
        assert(sum[i] == item);
    }
    if second.contains(item) {
        let i = choose|i: int| 0 <= i < second.len() && second[i] == item;
        assert(sum[first.len() + i] == item);
    }
    if sum.contains(item) {
        let i = choose|i: int| 0 <= i < sum.len() && sum[i] == item;
        if i < first.len() {
            assert(first[i] == item);
        } else {
            assert(second[i - first.len()] == item);
        }
    }
}

/// A record has the three coordinates, and each optional field exactly if the layout has
/// it, independently of the others; each once, and in a fixed order.
pub proof fn law_fields_follow_the_layout(layout: RecordLayout)
    ensures
        layout.fields().contains(RecordField::CartesianX),
        layout.fields().contains(RecordField::CartesianY),
        layout.fields().contains(RecordField::CartesianZ),
        layout.fields().contains(RecordField::CartesianInvalidState) <==> layout.has_invalid_state,
        layout.fields().contains(RecordField::RowIndex) <==> layout.has_grid,
        layout.fields().contains(RecordField::ColumnIndex) <==> layout.has_grid,
        layout.fields().contains(RecordField::ColorRed) <==> layout.has_color,
        layout.fields().contains(RecordField::ColorGreen) <==> layout.has_color,
        layout.fields().contains(RecordField::ColorBlue) <==> layout.has_color,
        layout.fields().contains(RecordField::Intensity) <==> layout.has_intensity,
        forall|i: int, j: int|
            0 <= i < j < layout.fields().len() ==> field_rank(#[trigger] layout.fields()[i])
                < field_rank(#[trigger] layout.fields()[j]),
{
    let fields = layout.fields();
    let s: int = if layout.has_invalid_state {
        1
    } else {
        0
    };
    let g: int = if layout.has_grid {
        2
    } else {
        0
    };
    let c: int = if layout.has_color {
        3
    } else {
        0
    };
    assert(fields[0] == RecordField::CartesianX);
    assert(fields[1] == RecordField::CartesianY);
    assert(fields[2] == RecordField::CartesianZ);
    if layout.has_invalid_state {
        assert(fields[3] == RecordField::CartesianInvalidState);
    }
    if layout.has_grid {
        assert(fields[3 + s] == RecordField::RowIndex);
        assert(fields[4 + s] == RecordField::ColumnIndex);
    }
    if layout.has_color {
        assert(fields[3 + s + g] == RecordField::ColorRed);
        assert(fields[4 + s + g] == RecordField::ColorGreen);
        assert(fields[5 + s + g] == RecordField::ColorBlue);
    }
    if layout.has_intensity {
        assert(fields[3 + s + g + c] == RecordField::Intensity);
    }
}

/// Each value of a record tells of the point what its field asks for.
pub proof fn law_values_tell_the_point(
    layout: RecordLayout,
    state: CoordinateState,
    cell: GridCell,
    color: Option<Rgb8>,
    intensity: Option<u16>,
    i: int,
)
    requires
        0 <= i < layout.fields().len(),
    ensures
        ({
            let field = layout.fields()[i];
            let value = layout.values(state, cell, color, intensity)[i];
            let rgb = color.unwrap_or(Rgb8 { red: 0, green: 0, blue: 0 });
            &&& field_rank(field) < 3 && state == CoordinateState::Invalid ==> value
                == FieldValue::Zero
            &&& state != CoordinateState::Invalid ==> {
                &&& field == RecordField::CartesianX ==> value == FieldValue::X
                &&& field == RecordField::CartesianY ==> value == FieldValue::Y
                &&& field == RecordField::CartesianZ ==> value == FieldValue::Z
            }
            &&& field == RecordField::CartesianInvalidState ==> {
                &&& value == FieldValue::Integer(0) <==> state == CoordinateState::Valid
                &&& value == FieldValue::Integer(1) <==> state == CoordinateState::Direction
                &&& value == FieldValue::Integer(2) <==> state == CoordinateState::Invalid
            }
            &&& field == RecordField::RowIndex ==> value == FieldValue::Integer(cell.row)
            &&& field == RecordField::ColumnIndex ==> value == FieldValue::Integer(cell.column)
            &&& field == RecordField::ColorRed ==> value == FieldValue::Integer(rgb.red as i64)
            &&& field == RecordField::ColorGreen ==> value == FieldValue::Integer(
                rgb.green as i64,
            )
            &&& field == RecordField::ColorBlue ==> value == FieldValue::Integer(rgb.blue as i64)
            &&& field == RecordField::Intensity ==> value == FieldValue::Integer(
                intensity.unwrap_or(0) as i64,
            )
        }),
{
    let s: int = if layout.has_invalid_state {
        1
    } else {
        0
    };
    let g: int = if layout.has_grid {
        2
    } else {
        0
    };
    let c: int = if layout.has_color {
        3
    } else {
        0
    };
    let fields = layout.fields();
    let values = layout.values(state, cell, color, intensity);
    let rgb = color.unwrap_or(Rgb8 { red: 0, green: 0, blue: 0 });
    let level = intensity.unwrap_or(0);
    if i < 3 {
        assert(values[i] == state.coordinates()[i]);
        assert(field_rank(fields[i]) == i);
    } else if i < 3 + s {
        assert(fields[i] == RecordField::CartesianInvalidState);
        assert(values[i] == FieldValue::Integer(state.code()));
    } else if i < 3 + s + g {
        let part = i - 3 - s;
        assert(fields[i] == seq![RecordField::RowIndex, RecordField::ColumnIndex][part]);
        assert(values[i] == seq![
            FieldValue::Integer(cell.row),
            FieldValue::Integer(cell.column),
        ][part]);
    } else if i < 3 + s + g + c {
        let part = i - 3 - s - g;
        assert(fields[i] == seq![
            RecordField::ColorRed,
            RecordField::ColorGreen,
            RecordField::ColorBlue,
        ][part]);
        assert(values[i] == seq![
            FieldValue::Integer(rgb.red as i64),
            FieldValue::Integer(rgb.green as i64),
            FieldValue::Integer(rgb.blue as i64),
        ][part]);
    } else {
        assert(fields[i] == RecordField::Intensity);
        assert(values[i] == FieldValue::Integer(level as i64));
    }
}

/// Integer fields reach from zero to the most that they are for: a state, an index of 32
/// bits, a channel of eight, an intensity of sixteen.
pub proof fn law_ranges_are_those_of_the_values(field: RecordField)
    ensures
        field_rank(field) < 3 <==> field.range() is None,
        field == RecordField::CartesianInvalidState ==> field.range() == Some(
            (CoordinateState::Valid.code(), CoordinateState::Invalid.code()),
        ) && field.range() == Some((0i64, 2i64)),
        4 <= field_rank(field) <= 5 ==> field.range() == Some((0i64, u32::MAX as i64)),
        6 <= field_rank(field) <= 8 ==> field.range() == Some((0i64, u8::MAX as i64)),
        field == RecordField::Intensity ==> field.range() == Some((0i64, u16::MAX as i64)),
{
}

/// The points of two lists of scans together are those of the one and those of the other,
/// and a single scan counts with its records.
pub proof fn law_point_totals_add_up(first: Seq<ScanInfo>, second: Seq<ScanInfo>, scan: ScanInfo)
    ensures
        point_total(first + second) == point_total(first) + point_total(second),
        point_total(seq![scan]) == scan.records,
        point_total(Seq::<ScanInfo>::empty()) == 0,
    decreases second.len(),
{
    let single = seq![scan];
    assert(single.drop_last() =~= Seq::<ScanInfo>::empty());
    assert(point_total(single) == point_total(single.drop_last()) + scan.records);
    if second.len() == 0 {
        assert(first + second =~= first);
    } else {
        law_point_totals_add_up(first, second.drop_last(), scan);
        assert((first + second).drop_last() =~= first + second.drop_last());
    }
}

} // verus!
