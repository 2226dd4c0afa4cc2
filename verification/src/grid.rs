//! Decimation of a scanner's grid: every k-th row and every k-th column stays, and
//! what stays is numbered anew without gaps.

use crate::pipeline::Pipeline;
use crate::run::progress_report;
use crate::run::report;
use crate::run::ProgressMark;
use vstd::prelude::*;

verus! {

/// The row and the column at which a scan's grid begins.
#[derive(Clone, Copy, Debug, PartialEq, Eq, Structural)]
pub struct GridOrigin {
    pub row: i64,
    pub column: i64,
}

/// A cell of a decimated grid.
#[derive(Clone, Copy, Debug, PartialEq, Eq, Structural)]
pub struct GridCell {
    pub row: i64,
    pub column: i64,
}

/// Division that rounds towards zero.
pub open spec fn toward_zero(n: int, d: int) -> int {
    if n >= 0 {
        if d > 0 {
            n / d
        } else {
            -(n / -d)
        }
    } else {
        if d > 0 {
            -(-n / d)
        } else {
            -n / -d
        }
    }
}

/// The stride for a requested `k`: at least one, and one while thinning is off. A
/// request beyond the signed range wraps around into the negative numbers.
pub open spec fn stride_for(use_thinning: bool, requested: usize) -> int {
    if !use_thinning || requested == 0 {
        1
    } else if requested <= i64::MAX {
        requested as int
    } else {
        requested - 0x1_0000_0000_0000_0000
    }
}

/// The stride for a requested `k`.
pub fn grid_stride(use_thinning: bool, requested: usize) -> (k: i64)
    ensures
        k == stride_for(use_thinning, requested),
        k != 0,
        use_thinning && 1 <= requested <= i64::MAX ==> k == requested,
        !use_thinning || requested == 0 ==> k == 1,
{
    if !use_thinning || requested == 0 {
        return 1;
    }
    let wide: u64 = requested as u64;
    assert(wide <= 0x7fff_ffff_ffff_ffff ==> (wide as i64) as int == wide) by (bit_vector);
    assert(wide > 0x7fff_ffff_ffff_ffff ==> (wide as i64) as int == wide
        - 0x1_0000_0000_0000_0000) by (bit_vector);
    #[verifier::truncate] (wide as i64)
}

/// Where a scan's grid begins.
pub open spec fn origin_for(row_min: Option<i64>, column_min: Option<i64>) -> GridOrigin {
    GridOrigin { row: row_min.unwrap_or(0), column: column_min.unwrap_or(0) }
}

/// Where a scan's grid begins: at the announced bounds, or else at zero.
pub fn grid_origin(row_min: Option<i64>, column_min: Option<i64>) -> (origin: GridOrigin)
    ensures
        origin == origin_for(row_min, column_min),
        origin.row == (match row_min { Some(row) => row, None => 0 }),
        origin.column == (match column_min { Some(column) => column, None => 0 }),
{
    let row: i64 = match row_min {
        Some(row) => row,
        None => 0,
    };
    let column: i64 = match column_min {
        Some(column) => column,
        None => 0,
    };
    GridOrigin { row, column }
}

/// The place of a source cell in the decimated grid, if it stays.
pub open spec fn place(k: int, origin: GridOrigin, row: int, column: int) -> Option<(int, int)> {
    let r = row - origin.row;
    let c = column - origin.column;
    if k > 1 && (r % k != 0 || c % k != 0) {
        None
    } else {
        Some((toward_zero(r, k), toward_zero(c, k)))
    }
}

/// Whether the distances of a cell from the origin, and their quotients by `k`, are
/// within the range of the indices.
pub open spec fn in_range(k: int, origin: GridOrigin, row: i64, column: i64) -> bool {
    &&& i64::MIN <= row - origin.row <= i64::MAX
    &&& i64::MIN <= column - origin.column <= i64::MAX
    &&& k == -1 ==> row - origin.row != i64::MIN && column - origin.column != i64::MIN
}

/// A quotient that rounds towards zero is no larger than its numerator.
proof fn lemma_quotient_bound(n: int, d: int)
    requires
        n >= 0,
        d > 0,
    ensures
        0 <= n / d <= n,
        d >= 2 ==> 2 * (n / d) <= n,
{
    vstd::arithmetic::div_mod::lemma_fundamental_div_mod(n, d);
    vstd::arithmetic::div_mod::lemma_mod_bound(n, d);
    let q = n / d;
    assert(0 <= q <= n && (d >= 2 ==> 2 * q <= n)) by (nonlinear_arith)
        requires
            n == d * q + n % d,
            0 <= n % d < d,
            n >= 0,
            d > 0,
    ;
}

/// A number and its negation have the same divisors.
proof fn lemma_negated_multiple(n: int, d: int)
    requires
        d > 0,
    ensures
        n % d == 0 <==> -n % d == 0,
{
    if n % d == 0 {
        vstd::arithmetic::div_mod::lemma_fundamental_div_mod(n, d);
        assert(-n == -(n / d) * d) by (nonlinear_arith)
            requires
                n == d * (n / d),
        ;
        vstd::arithmetic::div_mod::lemma_mod_multiples_basic(-(n / d), d);
    }
    if -n % d == 0 {
        vstd::arithmetic::div_mod::lemma_fundamental_div_mod(-n, d);
        assert(n == -(-n / d) * d) by (nonlinear_arith)
            requires
                -n == d * (-n / d),
        ;
        vstd::arithmetic::div_mod::lemma_mod_multiples_basic(-(-n / d), d);
    }
}

fn quotient(n: i64, d: i64) -> (q: i64)
    requires
        d != 0,
        !(n == i64::MIN && d == -1),
    ensures
        q == toward_zero(n as int, d as int),
{
    proof {
        let magnitude: int = if n >= 0 {
            n as int
        } else {
            -n
        };
        let divisor: int = if d > 0 {
            d as int
        } else {
            -d
        };
        lemma_quotient_bound(magnitude, divisor);
        assert(n * -1 == -n && d * -1 == -d);
        if n == 0 {
            assert(0int / divisor == 0);
        }
    }
    match n.checked_div(d) {
        Some(q) => q,
        None => 0,
    }
}

fn is_multiple(n: i64, d: i64) -> (multiple: bool)
    requires
        d > 1,
    ensures
        multiple == (n as int % d as int == 0),
{
    proof {
        let magnitude: int = if n >= 0 {
            n as int
        } else {
            -n
        };
        vstd::arithmetic::div_mod::lemma_mod_bound(magnitude, d as int);
        lemma_negated_multiple(n as int, d as int);
        assert(n * -1 == -n);
        vstd::arithmetic::div_mod::lemma_small_mod(0nat, d as nat);
    }
    match n.checked_rem(d) {
        Some(r) => r == 0,
        None => false,
    }
}

/// The place of a source cell in the decimated grid, if it stays.
pub fn decimate_cell(k: i64, origin: GridOrigin, row: i64, column: i64) -> (cell: Option<GridCell>)
    requires
        k != 0,
        in_range(k as int, origin, row, column),
    ensures
        match place(k as int, origin, row as int, column as int) {
            Some((r, c)) => cell == Some(GridCell { row: r as i64, column: c as i64 })
                && i64::MIN <= r <= i64::MAX && i64::MIN <= c <= i64::MAX,
            None => cell is None,
        },
{
    let r: i64 = row - origin.row;
    let c: i64 = column - origin.column;
    if k > 1 && (!is_multiple(r, k) || !is_multiple(c, k)) {
        return None;
    }
    Some(GridCell { row: quotient(r, k), column: quotient(c, k) })
}

/// A cell as it was read: where the grid of its scan begins, its row and its column.
#[derive(Clone, Copy, Debug, PartialEq, Eq, Structural)]
pub struct SourceCell {
    pub origin: GridOrigin,
    pub row: i64,
    pub column: i64,
}

/// The place of a cell as it was read, if it stays.
pub open spec fn place_of(k: int, cell: SourceCell) -> Option<(int, int)> {
    place(k, cell.origin, cell.row as int, cell.column as int)
}

/// How many of a series of cells stay.
pub open spec fn kept_cells(k: int, cells: Seq<SourceCell>) -> nat
    decreases cells.len(),
{
    if cells.len() == 0 {
        0
    } else {
        kept_cells(k, cells.drop_last()) + if place_of(k, cells.last()) is Some {
            1nat
        } else {
            0nat
        }
    }
}

/// No more cells stay than are read.
proof fn lemma_kept_bound(k: int, cells: Seq<SourceCell>)
    ensures
        kept_cells(k, cells) <= cells.len(),
    decreases cells.len(),
{
    if cells.len() > 0 {
        lemma_kept_bound(k, cells.drop_last());
    }
}

/// A run over the cells of structured scans: which were read, and how many were written
/// in all and for the scan at hand.
pub struct GridRun {
    k: i64,
    total: usize,
    processed: usize,
    written: usize,
    scan_written: usize,
    cells: Ghost<Seq<SourceCell>>,
}

impl GridRun {
    /// The stride of the run.
    pub closed spec fn spec_stride(&self) -> i64 {
        self.k
    }

    /// The announced number of cells.
    pub closed spec fn spec_total(&self) -> usize {
        self.total
    }

    /// How many cells were read.
    pub closed spec fn spec_processed(&self) -> usize {
        self.processed
    }

    /// How many cells were written.
    pub closed spec fn spec_written(&self) -> usize {
        self.written
    }

    /// How many cells were written for the scan at hand.
    pub closed spec fn spec_scan_written(&self) -> usize {
        self.scan_written
    }

    /// The cells read so far, in order.
    pub closed spec fn cells(&self) -> Seq<SourceCell> {
        self.cells@
    }

    /// How many of the cells read so far stay.
    pub open spec fn kept(&self) -> nat {
        kept_cells(self.spec_stride() as int, self.cells())
    }

    /// The stride is usable, the cells read are counted, and no scan writes more than
    /// the run, nor the run more than stays of what it reads.
    pub open spec fn well_formed(&self) -> bool {
        &&& self.spec_stride() != 0
        &&& self.spec_processed() == self.cells().len()
        &&& self.spec_scan_written() <= self.spec_written() <= self.kept()
    }

    /// A run over scans announced to hold `total` cells.
    pub fn new(total: usize, use_thinning: bool, requested: usize) -> (run: GridRun)
        ensures
            run.well_formed(),
            run.spec_stride() == stride_for(use_thinning, requested),
            run.spec_total() == total,
            run.spec_processed() == 0,
            run.spec_written() == 0,
            run.spec_scan_written() == 0,
            run.cells() == Seq::<SourceCell>::empty(),
    {
        GridRun {
            k: grid_stride(use_thinning, requested),
            total,
            processed: 0,
            written: 0,
            scan_written: 0,
            cells: Ghost(Seq::empty()),
        }
    }

    /// The stride of the run.
    pub fn stride(&self) -> (k: i64)
        ensures
            k == self.spec_stride(),
    {
        self.k
    }

    /// How many cells were read.
    pub fn processed(&self) -> (count: usize)
        ensures
            count == self.spec_processed(),
    {
        self.processed
    }

    /// How many cells were written.
    pub fn written(&self) -> (count: usize)
        ensures
            count == self.spec_written(),
    {
        self.written
    }

    /// How many cells were written for the scan at hand.
    pub fn scan_written(&self) -> (count: usize)
        ensures
            count == self.spec_scan_written(),
    {
        self.scan_written
    }

    /// Starts the next scan.
    pub fn begin_scan(&mut self)
        requires
            old(self).well_formed(),
        ensures
            final(self).well_formed(),
            final(self).spec_scan_written() == 0,
            final(self).spec_stride() == old(self).spec_stride(),
            final(self).spec_total() == old(self).spec_total(),
            final(self).spec_processed() == old(self).spec_processed(),
            final(self).spec_written() == old(self).spec_written(),
            final(self).cells() == old(self).cells(),
    {
        self.scan_written = 0;
    }

    /// Reads one cell of the scan at hand and tells where it goes, if it stays.
    pub fn offer(&mut self, origin: GridOrigin, row: i64, column: i64) -> (cell: Option<GridCell>)
        requires
            old(self).well_formed(),
            old(self).spec_processed() < usize::MAX,
            in_range(old(self).spec_stride() as int, origin, row, column),
        ensures
            final(self).well_formed(),
            match place(old(self).spec_stride() as int, origin, row as int, column as int) {
                Some((r, c)) => cell == Some(GridCell { row: r as i64, column: c as i64 })
                    && i64::MIN <= r <= i64::MAX && i64::MIN <= c <= i64::MAX,
                None => cell is None,
            },
            final(self).spec_processed() == old(self).spec_processed() + 1,
            final(self).cells() == old(self).cells().push(SourceCell { origin, row, column }),
            final(self).kept() == old(self).kept() + if cell is Some {
                1nat
            } else {
                0nat
            },
            final(self).spec_stride() == old(self).spec_stride(),
            final(self).spec_total() == old(self).spec_total(),
            final(self).spec_written() == old(self).spec_written(),
            final(self).spec_scan_written() == old(self).spec_scan_written(),
    {
        self.processed = self.processed + 1;
        let ghost read = SourceCell { origin, row, column };
        assert(self.cells@.push(read).drop_last() =~= self.cells@);
        self.cells = Ghost(self.cells@.push(read));
        decimate_cell(self.k, origin, row, column)
    }

    /// Counts a cell as written, and tells what progress is reported.
    pub fn wrote(&mut self) -> (mark: Option<ProgressMark>)
        requires
            old(self).well_formed(),
            old(self).spec_written() < old(self).kept(),
        ensures
            final(self).well_formed(),
            final(self).spec_written() == old(self).spec_written() + 1,
            final(self).spec_scan_written() == old(self).spec_scan_written() + 1,
            mark == report(
                Pipeline::StructuredE57,
                old(self).spec_total(),
                old(self).spec_processed(),
            ),
            final(self).spec_stride() == old(self).spec_stride(),
            final(self).spec_total() == old(self).spec_total(),
            final(self).spec_processed() == old(self).spec_processed(),
            final(self).cells() == old(self).cells(),
    {
        proof {
            lemma_kept_bound(self.k as int, self.cells@);
        }
        self.written = self.written + 1;
        self.scan_written = self.scan_written + 1;
        progress_report(Pipeline::StructuredE57, self.total, self.processed)
    }
}

/// With a stride above one a cell stays exactly if its row and its column are whole
/// strides away from the origin; with a stride of one every cell stays, counted from
/// the origin.
pub proof fn law_every_kth_row_and_column(k: int, origin: GridOrigin, row: int, column: int)
    requires
        k >= 1,
    ensures
        place(k, origin, row, column) is Some <==> (row - origin.row) % k == 0 && (column
            - origin.column) % k == 0,
        k == 1 ==> place(k, origin, row, column) == Some((row - origin.row, column - origin.column)),
{
    if k == 1 {
        let r = row - origin.row;
        let c = column - origin.column;
        assert(r % 1 == 0 && c % 1 == 0 && r / 1 == r && c / 1 == c && -r / 1 == -r && -c / 1
            == -c);
    }
}

/// The new index of a cell that stays tells where the cell came from.
pub proof fn law_new_index_tells_source(k: int, origin: GridOrigin, row: int, column: int)
    requires
        k >= 1,
        place(k, origin, row, column) is Some,
    ensures
        ({
            let (r, c) = place(k, origin, row, column)->0;
            row == origin.row + k * r && column == origin.column + k * c
        }),
{
    law_every_kth_row_and_column(k, origin, row, column);
    lemma_exact_quotient(row - origin.row, k);
    lemma_exact_quotient(column - origin.column, k);
}

proof fn lemma_exact_quotient(n: int, k: int)
    requires
        k >= 1,
        n % k == 0,
    ensures
        k * toward_zero(n, k) == n,
{
    vstd::arithmetic::div_mod::lemma_fundamental_div_mod(n, k);
    lemma_negated_multiple(n, k);
    vstd::arithmetic::div_mod::lemma_fundamental_div_mod(-n, k);
    let q = -n / k;
    assert(k * -q == -(k * q)) by (nonlinear_arith);
}

/// Two different cells that stay get different places.
pub proof fn law_places_are_distinct(
    k: int,
    origin: GridOrigin,
    row: int,
    column: int,
    other_row: int,
    other_column: int,
)
    requires
        k >= 1,
        place(k, origin, row, column) is Some,
        place(k, origin, row, column) == place(k, origin, other_row, other_column),
    ensures
        row == other_row,
        column == other_column,
{
    law_new_index_tells_source(k, origin, row, column);
    law_new_index_tells_source(k, origin, other_row, other_column);
}

/// How many strides of length `k` it takes to cover `n`.
pub open spec fn strides(n: nat, k: int) -> int {
    (n + k - 1) / k
}

proof fn lemma_exact_strides(n: nat, k: int)
    requires
        k >= 1,
        n as int % k == 0,
    ensures
        k * strides(n, k) == n,
{
    let q = n as int / k;
    vstd::arithmetic::div_mod::lemma_fundamental_div_mod(n as int, k);
    assert(q * k == k * q) by (nonlinear_arith);
    vstd::arithmetic::div_mod::lemma_fundamental_div_mod_converse(n + k - 1, k, q, k - 1);
}

/// The decimated grid has no gaps: each of its places is taken by the cell that lies as
/// many strides from the origin, and that cell lies within the source grid.
pub proof fn law_new_grid_has_no_gaps(
    k: int,
    origin: GridOrigin,
    rows: nat,
    columns: nat,
    row: int,
    column: int,
)
    requires
        k >= 1,
        0 <= row < strides(rows, k),
        0 <= column < strides(columns, k),
    ensures
        place(k, origin, origin.row + k * row, origin.column + k * column) == Some((row, column)),
        0 <= k * row < rows,
        0 <= k * column < columns,
{
    lemma_within(rows, k, row);
    lemma_within(columns, k, column);
    assert(row * k == k * row && column * k == k * column) by (nonlinear_arith);
    vstd::arithmetic::div_mod::lemma_mod_multiples_basic(row, k);
    vstd::arithmetic::div_mod::lemma_mod_multiples_basic(column, k);
    vstd::arithmetic::div_mod::lemma_fundamental_div_mod_converse(k * row, k, row, 0);
    vstd::arithmetic::div_mod::lemma_fundamental_div_mod_converse(k * column, k, column, 0);
}

proof fn lemma_within(n: nat, k: int, i: int)
    requires
        k >= 1,
        0 <= i < strides(n, k),
    ensures
        0 <= k * i < n,
{
    let s = strides(n, k);
    let m = (n + k - 1) % k;
    vstd::arithmetic::div_mod::lemma_fundamental_div_mod(n + k - 1, k);
    vstd::arithmetic::div_mod::lemma_mod_bound(n + k - 1, k);
    assert(0 <= k * i < n) by (nonlinear_arith)
        requires
            n + k - 1 == k * s + m,
            0 <= m < k,
            0 <= i,
            i <= s - 1,
            k >= 1,
    ;
}

/// The places that a series of cells takes in the decimated grid.
pub open spec fn taken_places(k: int, cells: Seq<SourceCell>) -> Set<(int, int)>
    decreases cells.len(),
{
    if cells.len() == 0 {
        Set::empty()
    } else {
        match place_of(k, cells.last()) {
            Some(at) => taken_places(k, cells.drop_last()).insert(at),
            None => taken_places(k, cells.drop_last()),
        }
    }
}

proof fn lemma_taken_places(k: int, cells: Seq<SourceCell>, at: (int, int))
    ensures
        taken_places(k, cells).contains(at) <==> exists|i: int|
            0 <= i < cells.len() && place_of(k, #[trigger] cells[i]) == Some(at),
    decreases cells.len(),
{
    if cells.len() > 0 {
        let rest = cells.drop_last();
        lemma_taken_places(k, rest, at);
        if taken_places(k, rest).contains(at) {
            let i = choose|i: int|
                0 <= i < rest.len() && place_of(k, #[trigger] rest[i]) == Some(at);
            assert(cells[i] == rest[i]);
        }
        if exists|i: int| 0 <= i < cells.len() && place_of(k, #[trigger] cells[i]) == Some(at) {
            let i = choose|i: int|
                0 <= i < cells.len() && place_of(k, #[trigger] cells[i]) == Some(at);
            if i < rest.len() {
                assert(rest[i] == cells[i]);
            }
        }
        assert(cells[cells.len() - 1] == cells.last());
    }
}

/// Different cells of one scan take as many places as stay.
proof fn lemma_places_counted(k: int, origin: GridOrigin, cells: Seq<SourceCell>)
    requires
        k >= 1,
        cells.no_duplicates(),
        forall|i: int| 0 <= i < cells.len() ==> (#[trigger] cells[i]).origin == origin,
    ensures
        taken_places(k, cells).finite(),
        taken_places(k, cells).len() == kept_cells(k, cells),
    decreases cells.len(),
{
    if cells.len() > 0 {
        let rest = cells.drop_last();
        let last = cells.last();
        assert(forall|i: int| 0 <= i < rest.len() ==> rest[i] == cells[i]);
        lemma_places_counted(k, origin, rest);
        assert(cells[cells.len() - 1] == last);
        if place_of(k, last) is Some {
            let at = place_of(k, last)->0;
            lemma_taken_places(k, rest, at);
            if taken_places(k, rest).contains(at) {
                let i = choose|i: int|
                    0 <= i < rest.len() && place_of(k, #[trigger] rest[i]) == Some(at);
                assert(cells[i].origin == origin);
                law_places_are_distinct(
                    k,
                    origin,
                    last.row as int,
                    last.column as int,
                    cells[i].row as int,
                    cells[i].column as int,
                );
                assert(cells[i] == cells[cells.len() - 1]);
            }
        }
    }
}

/// The first `rows` full rows of places, and `more` places of the next one.
spec fn leading_places(rows: int, columns: int, more: int) -> Set<(int, int)> {
    Set::new(
        |at: (int, int)|
            0 <= at.0 && 0 <= at.1 < columns && (at.0 < rows || at.0 == rows && at.1 < more),
    )
}

proof fn lemma_leading_places(rows: int, columns: int, more: int)
    requires
        0 <= rows,
        0 <= more <= columns,
    ensures
        leading_places(rows, columns, more).finite(),
        leading_places(rows, columns, more).len() == rows * columns + more,
    decreases rows, more,
{
    if more > 0 {
        lemma_leading_places(rows, columns, more - 1);
        assert(leading_places(rows, columns, more) =~= leading_places(
            rows,
            columns,
            more - 1,
        ).insert((rows, more - 1)));
    } else if rows > 0 {
        lemma_leading_places(rows - 1, columns, columns);
        assert(leading_places(rows, columns, 0) =~= leading_places(rows - 1, columns, columns));
        assert(rows * columns == (rows - 1) * columns + columns) by (nonlinear_arith);
    } else {
        assert(leading_places(0, columns, 0) =~= Set::empty());
        assert(0 * columns == 0);
    }
}

/// Whether a series of cells is a full grid: each of its cells is there once, and none
/// besides, in whatever order.
pub open spec fn is_full_grid(
    cells: Seq<SourceCell>,
    origin: GridOrigin,
    rows: nat,
    columns: nat,
) -> bool {
    &&& cells.no_duplicates()
    &&& forall|i: int|
        0 <= i < cells.len() ==> {
            &&& (#[trigger] cells[i]).origin == origin
            &&& 0 <= cells[i].row - origin.row < rows
            &&& 0 <= cells[i].column - origin.column < columns
        }
    &&& forall|row: i64, column: i64|
        0 <= row - origin.row < rows && 0 <= column - origin.column < columns ==> #[trigger] cells.contains(
            SourceCell { origin, row, column },
        )
    &&& origin.row + rows <= i64::MAX + 1
    &&& origin.column + columns <= i64::MAX + 1
}

/// A full grid that is read in whatever order leaves as many cells as strides fit its
/// rows times as many as fit its columns. Where the stride divides both, that is the
/// number of cells divided by the square of the stride.
pub proof fn law_full_grid_in_any_order(
    k: int,
    origin: GridOrigin,
    rows: nat,
    columns: nat,
    cells: Seq<SourceCell>,
)
    requires
        k >= 1,
        is_full_grid(cells, origin, rows, columns),
    ensures
        kept_cells(k, cells) == strides(rows, k) * strides(columns, k),
        rows as int % k == 0 && columns as int % k == 0 ==> kept_cells(k, cells) * (k * k) == rows
            * columns,
{
    let a = strides(rows, k);
    let b = strides(columns, k);
    vstd::arithmetic::div_mod::lemma_div_pos_is_pos(rows + k - 1, k);
    vstd::arithmetic::div_mod::lemma_div_pos_is_pos(columns + k - 1, k);
    let places = taken_places(k, cells);
    assert forall|at: (int, int)| places.contains(at) <==> leading_places(a, b, 0).contains(
        at,
    ) by {
        lemma_taken_places(k, cells, at);
        if places.contains(at) {
            let i = choose|i: int|
                0 <= i < cells.len() && place_of(k, #[trigger] cells[i]) == Some(at);
            law_new_index_tells_source(
                k,
                origin,
                cells[i].row as int,
                cells[i].column as int,
            );
            lemma_index_within(rows, k, at.0);
            lemma_index_within(columns, k, at.1);
        }
        if leading_places(a, b, 0).contains(at) {
            law_new_grid_has_no_gaps(k, origin, rows, columns, at.0, at.1);
            let cell = SourceCell {
                origin,
                row: (origin.row + k * at.0) as i64,
                column: (origin.column + k * at.1) as i64,
            };
            assert(cells.contains(cell));
            let i = choose|i: int| 0 <= i < cells.len() && cells[i] == cell;
            assert(place_of(k, cells[i]) == Some(at));
        }
    }
    assert(places =~= leading_places(a, b, 0));
    lemma_places_counted(k, origin, cells);
    lemma_leading_places(a, b, 0);
    if rows as int % k == 0 && columns as int % k == 0 {
        lemma_exact_strides(rows, k);
        lemma_exact_strides(columns, k);
        assert((a * b) * (k * k) == (k * a) * (k * b)) by (nonlinear_arith);
    }
}

/// A multiple of the stride within a length is one of its strides.
proof fn lemma_index_within(n: nat, k: int, i: int)
    requires
        k >= 1,
        0 <= k * i < n,
    ensures
        0 <= i < strides(n, k),
{
    let s = strides(n, k);
    let m = (n + k - 1) % k;
    vstd::arithmetic::div_mod::lemma_fundamental_div_mod(n + k - 1, k);
    vstd::arithmetic::div_mod::lemma_mod_bound(n + k - 1, k);
    assert(0 <= i < s) by (nonlinear_arith)
        requires
            n + k - 1 == k * s + m,
            0 <= m < k,
            0 <= k * i < n,
            k >= 1,
    ;
}

/// The origin of a grid that was numbered anew.
pub open spec fn new_origin() -> GridOrigin {
    GridOrigin { row: 0, column: 0 }
}

/// The cells that stay of a series, in order, as they are read from the result, each
/// with what it holds.
pub open spec fn decimated<T>(k: int, cells: Seq<(SourceCell, T)>) -> Seq<(SourceCell, T)>
    decreases cells.len(),
{
    if cells.len() == 0 {
        Seq::empty()
    } else {
        match place_of(k, cells.last().0) {
            Some((r, c)) => decimated(k, cells.drop_last()).push(
                (
                    SourceCell { origin: new_origin(), row: r as i64, column: c as i64 },
                    cells.last().1,
                ),
            ),
            None => decimated(k, cells.drop_last()),
        }
    }
}

/// The cells of a series without what they hold.
pub open spec fn bare_cells<T>(cells: Seq<(SourceCell, T)>) -> Seq<SourceCell> {
    cells.map_values(|cell: (SourceCell, T)| cell.0)
}

/// As many cells are left as stay.
pub proof fn law_decimated_length<T>(k: int, cells: Seq<(SourceCell, T)>)
    ensures
        decimated(k, cells).len() == kept_cells(k, bare_cells(cells)),
    decreases cells.len(),
{
    if cells.len() > 0 {
        law_decimated_length(k, cells.drop_last());
        assert(bare_cells(cells).drop_last() =~= bare_cells(cells.drop_last()));
    }
}

/// The index of a stride of strides.
proof fn lemma_nested_strides(n: int, k1: int, k2: int)
    requires
        k1 >= 1,
        k2 >= 1,
    ensures
        k1 * k2 >= 1,
        n % (k1 * k2) == 0 <==> n % k1 == 0 && toward_zero(n, k1) % k2 == 0,
        n % (k1 * k2) == 0 ==> toward_zero(n, k1 * k2) == toward_zero(toward_zero(n, k1), k2),
{
    let k = k1 * k2;
    assert(k >= 1) by (nonlinear_arith)
        requires
            k1 >= 1,
            k2 >= 1,
            k == k1 * k2,
    ;
    if n % k == 0 {
        lemma_exact_quotient(n, k);
        let q = toward_zero(n, k);
        assert(n == (k2 * q) * k1) by (nonlinear_arith)
            requires
                n == k * q,
                k == k1 * k2,
        ;
        vstd::arithmetic::div_mod::lemma_mod_multiples_basic(k2 * q, k1);
        lemma_exact_quotient(n, k1);
        let p = toward_zero(n, k1);
        assert(p == k2 * q) by (nonlinear_arith)
            requires
                k1 * p == n,
                n == (k2 * q) * k1,
                k1 >= 1,
        ;
        assert(k2 * q == q * k2) by (nonlinear_arith);
        vstd::arithmetic::div_mod::lemma_mod_multiples_basic(q, k2);
        lemma_exact_quotient(p, k2);
        assert(toward_zero(p, k2) == q) by (nonlinear_arith)
            requires
                k2 * toward_zero(p, k2) == p,
                p == k2 * q,
                k2 >= 1,
        ;
    }
    if n % k1 == 0 && toward_zero(n, k1) % k2 == 0 {
        let p = toward_zero(n, k1);
        let q = toward_zero(p, k2);
        lemma_exact_quotient(n, k1);
        lemma_exact_quotient(p, k2);
        assert(n == q * k) by (nonlinear_arith)
            requires
                n == k1 * p,
                p == k2 * q,
                k == k1 * k2,
        ;
        vstd::arithmetic::div_mod::lemma_mod_multiples_basic(q, k);
    }
}

/// A cell that is decimated by one stride and then by another goes where it goes under
/// the product of the two.
pub proof fn law_decimating_twice(k1: int, k2: int, origin: GridOrigin, row: int, column: int)
    requires
        k1 >= 1,
        k2 >= 1,
    ensures
        place(k1 * k2, origin, row, column) == match place(k1, origin, row, column) {
            Some((r, c)) => place(k2, new_origin(), r, c),
            None => None,
        },
{
    lemma_nested_strides(row - origin.row, k1, k2);
    lemma_nested_strides(column - origin.column, k1, k2);
    law_every_kth_row_and_column(k1 * k2, origin, row, column);
    law_every_kth_row_and_column(k1, origin, row, column);
    if place(k1, origin, row, column) is Some {
        let (r, c) = place(k1, origin, row, column)->0;
        law_every_kth_row_and_column(k2, new_origin(), r, c);
    }
}

/// Scans that are decimated by one stride, and the result by another, leave the same
/// cells with the same indices, in the same order and as many, as under the product of
/// the two.
pub proof fn law_scans_decimated_twice<T>(k1: int, k2: int, cells: Seq<(SourceCell, T)>)
    requires
        k1 >= 1,
        k2 >= 1,
        forall|i: int|
            0 <= i < cells.len() ==> in_range(
                k1,
                (#[trigger] cells[i]).0.origin,
                cells[i].0.row,
                cells[i].0.column,
            ),
    ensures
        decimated(k2, decimated(k1, cells)) == decimated(k1 * k2, cells),
        kept_cells(k2, bare_cells(decimated(k1, cells))) == kept_cells(
            k1 * k2,
            bare_cells(cells),
        ),
    decreases cells.len(),
{
    law_decimated_length(k2, decimated(k1, cells));
    law_decimated_length(k1 * k2, cells);
    if cells.len() > 0 {
        let rest = cells.drop_last();
        let (last, content) = cells.last();
        assert(forall|i: int| 0 <= i < rest.len() ==> rest[i] == cells[i]);
        law_scans_decimated_twice(k1, k2, rest);
        law_decimating_twice(k1, k2, last.origin, last.row as int, last.column as int);
        assert(cells[cells.len() - 1].0 == last);
        if place_of(k1, last) is Some {
            let (r, c) = place_of(k1, last)->0;
            lemma_place_in_range(k1, last);
            let once = SourceCell { origin: new_origin(), row: r as i64, column: c as i64 };
            assert(decimated(k1, cells).drop_last() =~= decimated(k1, rest));
            assert(decimated(k1, cells).last() == (once, content));
            assert(place_of(k2, once) == place_of(k1 * k2, last));
        }
    }
}

proof fn lemma_place_in_range(k: int, cell: SourceCell)
    requires
        k >= 1,
        in_range(k, cell.origin, cell.row, cell.column),
        place_of(k, cell) is Some,
    ensures
        ({
            let (r, c) = place_of(k, cell)->0;
            i64::MIN <= r <= i64::MAX && i64::MIN <= c <= i64::MAX
        }),
{
    let r = cell.row - cell.origin.row;
    let c = cell.column - cell.origin.column;
    lemma_quotient_bound(
        if r >= 0 {
            r
        } else {
            -r
        },
        k,
    );
    lemma_quotient_bound(
        if c >= 0 {
            c
        } else {
            -c
        },
        k,
    );
}

/// The stride is the one that was asked for: itself where it fits the signed range, and
/// the number that differs from it by whole turns of 64 bits beyond. Without thinning, or
/// where none was asked for, it is one.
pub proof fn law_stride_is_what_was_asked_for(use_thinning: bool, requested: usize)
    ensures
        use_thinning && 1 <= requested <= i64::MAX ==> stride_for(use_thinning, requested)
            == requested,
        use_thinning && requested >= 1 ==> (stride_for(use_thinning, requested) - requested)
            % 0x1_0000_0000_0000_0000 == 0,
        i64::MIN <= stride_for(use_thinning, requested) <= i64::MAX,
        !use_thinning || requested == 0 ==> stride_for(use_thinning, requested) == 1,
{
}

/// With thinning on, a cell stays exactly if its row and its column lie whole multiples
/// of the number that was asked for from the origin, and its new indices count those
/// multiples.
pub proof fn law_requested_multiples_stay(
    requested: usize,
    origin: GridOrigin,
    row: int,
    column: int,
)
    requires
        1 <= requested <= i64::MAX,
    ensures
        ({
            let at = place(stride_for(true, requested), origin, row, column);
            &&& at is Some <==> exists|r: int, c: int|
                row == origin.row + #[trigger] (requested * r) && column == origin.column
                    + #[trigger] (requested * c)
            &&& forall|r: int, c: int|
                row == origin.row + #[trigger] (requested * r) && column == origin.column
                    + #[trigger] (requested * c) ==> at == Some((r, c))
        }),
{
    let k = requested as int;
    let at = place(stride_for(true, requested), origin, row, column);
    law_every_kth_row_and_column(k, origin, row, column);
    if at is Some {
        law_new_index_tells_source(k, origin, row, column);
        let (r, c) = at->0;
        assert(row == origin.row + requested * r && column == origin.column + requested * c);
    }
    assert forall|r: int, c: int|
        row == origin.row + #[trigger] (requested * r) && column == origin.column + #[trigger] (
        requested * c) implies at == Some((r, c)) by {
        assert(requested * r == r * k && requested * c == c * k) by (nonlinear_arith)
            requires
                k == requested,
        ;
        vstd::arithmetic::div_mod::lemma_mod_multiples_basic(r, k);
        vstd::arithmetic::div_mod::lemma_mod_multiples_basic(c, k);
        law_new_index_tells_source(k, origin, row, column);
        let (r1, c1) = at->0;
        assert(r1 == r && c1 == c) by (nonlinear_arith)
            requires
                k * r1 == r * k,
                k * c1 == c * k,
                k >= 1,
        ;
    }
}

/// Of a full grid that is read in whatever order, the cells at whole multiples of the
/// number that was asked for stay, and no others: as many as such multiples fit its rows
/// times as many as fit its columns.
pub proof fn law_requested_stride_counts(
    requested: usize,
    origin: GridOrigin,
    rows: nat,
    columns: nat,
    cells: Seq<SourceCell>,
)
    requires
        1 <= requested <= i64::MAX,
        is_full_grid(cells, origin, rows, columns),
    ensures
        kept_cells(stride_for(true, requested), cells) == ((rows + requested - 1)
            / requested as int) * ((columns + requested - 1) / requested as int),
{
    law_full_grid_in_any_order(requested as int, origin, rows, columns, cells);
}

/// A quotient that rounds towards zero leaves a rest that is smaller than the divisor and
/// has the sign of the number.
pub proof fn law_quotient_rounds_toward_zero(n: int, d: int)
    requires
        d != 0,
    ensures
        ({
            let rest = n - d * toward_zero(n, d);
            &&& n >= 0 ==> 0 <= rest
            &&& n <= 0 ==> rest <= 0
            &&& d > 0 ==> -d < rest < d
            &&& d < 0 ==> d < rest < -d
        }),
{
    let m: int = if n >= 0 {
        n
    } else {
        -n
    };
    let e: int = if d > 0 {
        d
    } else {
        -d
    };
    let q = m / e;
    vstd::arithmetic::div_mod::lemma_fundamental_div_mod(m, e);
    vstd::arithmetic::div_mod::lemma_mod_bound(m, e);
    assert(d * -q == -(d * q) && -d * q == -(d * q)) by (nonlinear_arith);
    if n == 0 {
        assert(q == 0) by {
            lemma_quotient_bound(0, e);
        }
        assert(d * 0 == 0);
    }
}

/// With a negative stride every cell stays.
pub proof fn law_negative_strides_keep_all(k: int, origin: GridOrigin, row: int, column: int)
    requires
        k < 0,
    ensures
        place(k, origin, row, column) == Some(
            (toward_zero(row - origin.row, k), toward_zero(column - origin.column, k)),
        ),
{
}

/// A cell can be placed wherever its distances from the origin fit the indices, but for
/// the least one under a stride of minus one.
pub proof fn law_cells_near_the_origin_are_in_range(
    k: int,
    origin: GridOrigin,
    row: i64,
    column: i64,
)
    requires
        i64::MIN < row - origin.row <= i64::MAX,
        i64::MIN < column - origin.column <= i64::MAX,
    ensures
        in_range(k, origin, row, column),
{
}

/// A grid begins at the least row and the least column that are announced, each on its
/// own, and at zero where none is. So the cell with both least indices is the first of the
/// decimated grid, under any stride.
pub proof fn law_grid_begins_at_its_bounds(
    row: i64,
    column: i64,
    row_min: Option<i64>,
    column_min: Option<i64>,
    k: int,
)
    requires
        k >= 1,
    ensures
        origin_for(Some(row), column_min).row == row,
        origin_for(row_min, Some(column)).column == column,
        origin_for(None, column_min).row == 0,
        origin_for(row_min, None).column == 0,
        place(k, origin_for(Some(row), Some(column)), row as int, column as int) == Some(
            (0int, 0int),
        ),
{
    let origin = origin_for(Some(row), Some(column));
    law_every_kth_row_and_column(k, origin, row as int, column as int);
    vstd::arithmetic::div_mod::lemma_small_mod(0nat, k as nat);
    law_new_index_tells_source(k, origin, row as int, column as int);
    let (r, c) = place(k, origin, row as int, column as int)->0;
    assert(r == 0 && c == 0) by (nonlinear_arith)
        requires
            k * r == 0,
            k * c == 0,
            k >= 1,
    ;
}

} // verus!
