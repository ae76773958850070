//! Pretty printing of matrices and vectors. Useful for debugging and
//! visualizing the contents of a matrix or vector.
//!
//! A number enters the layout as a [`Cell`]: how it reads in fixed and in
//! scientific notation, which of the two applies, how many digits stand
//! before its decimal point and what kind of number it is. From the cells the
//! functions here choose the width of a column, colour and align each number
//! and draw the frame around them.
use vstd::prelude::*;
use vstd::string::{StrSliceExecFns, StringExecFns};
use vstd::utf8::encode_utf8;

use crate::text::{decimal, push_decimal, push_repeated, repeated, right_aligned};

verus! {

/// Number of digits shown behind the decimal point.
pub const PRECISION: usize = 3;

/// The kinds of number that are told apart by colour.
#[derive(Debug, Clone, Copy, PartialEq, Eq, Structural)]
pub enum NumberKind {
    /// Not a number.
    NotANumber,
    /// Positive or negative infinity.
    Infinite,
    /// A finite number with the sign bit set, negative zero included.
    Negative,
    /// A finite number above zero.
    Positive,
    /// Positive zero.
    Zero,
}

impl NumberKind {
    /// The escape code that switches to the colour of this kind.
    pub open spec fn spec_color(self) -> Seq<char> {
        match self {
            NumberKind::NotANumber => "\x1b[35m"@,
            NumberKind::Infinite => "\x1b[33m"@,
            NumberKind::Negative => "\x1b[31m"@,
            NumberKind::Positive => "\x1b[32m"@,
            NumberKind::Zero => "\x1b[0m"@,
        }
    }

    /// The escape code that switches to the colour of this kind: magenta for
    /// what is not a number, yellow for an infinity, red for a negative
    /// number, green for a positive one, and the default colour for zero.
    pub fn color(self) -> (code: &'static str)
        ensures
            code@ == self.spec_color(),
    {
        match self {
            NumberKind::NotANumber => "\x1b[35m",
            NumberKind::Infinite => "\x1b[33m",
            NumberKind::Negative => "\x1b[31m",
            NumberKind::Positive => "\x1b[32m",
            NumberKind::Zero => "\x1b[0m",
        }
    }
}

/// One number of a vector or matrix, as the layout needs it.
#[derive(Debug)]
pub struct Cell {
    /// What kind of number it is.
    pub kind: NumberKind,
    /// Number of characters that the number takes before its decimal point,
    /// a minus sign included; `None` for what is not a number and for an
    /// infinity.
    pub integral_digits: Option<usize>,
    /// Whether the magnitude of the number is above one million.
    pub exceeds_million: bool,
    /// The number in fixed notation with [`PRECISION`] decimals.
    pub fixed: String,
    /// The number in scientific notation with [`PRECISION`] decimals.
    pub scientific: String,
}

impl Cell {
    /// The width that the number asks of a column: its integral digits and
    /// the decimal point.
    pub open spec fn integral_width(self) -> nat {
        match self.integral_digits {
            Some(digits) => digits as nat + 1,
            None => 1,
        }
    }

    /// The notation in which the number is shown: scientific above one
    /// million, fixed otherwise.
    pub open spec fn shown(self) -> Seq<char> {
        if self.exceeds_million {
            self.scientific@
        } else {
            self.fixed@
        }
    }

    /// The cell in a column of `width` characters: coloured by its kind,
    /// pushed to the right, and followed by the switch back to the default
    /// colour.
    pub open spec fn text(self, width: nat) -> Seq<char> {
        self.kind.spec_color() + right_aligned(self.shown(), width) + "\x1b[0m"@
    }
}

impl Clone for Cell {
    fn clone(&self) -> (copy: Self)
        ensures
            copy == *self,
    {
        Cell {
            kind: self.kind,
            integral_digits: self.integral_digits,
            exceeds_million: self.exceeds_million,
            fixed: self.fixed.clone(),
            scientific: self.scientific.clone(),
        }
    }
}

/// The larger of two numbers.
pub open spec fn larger(a: nat, b: nat) -> nat {
    if a >= b {
        a
    } else {
        b
    }
}

/// The largest width that any of `cells` asks for, 0 where there is none.
pub open spec fn widest(cells: Seq<Cell>) -> nat
    decreases cells.len(),
{
    if cells.len() == 0 {
        0
    } else {
        larger(widest(cells.drop_last()), cells.last().integral_width())
    }
}

/// The largest width that any cell of `rows` asks for, 0 where there is none.
pub open spec fn widest_of_rows(rows: Seq<Seq<Cell>>) -> nat
    decreases rows.len(),
{
    if rows.len() == 0 {
        0
    } else {
        larger(widest_of_rows(rows.drop_last()), widest(rows.last()))
    }
}

/// The width of a column whose widest cell asks for `widest` characters:
/// `empty_width` takes the place of 0, no more than 9 integral characters are
/// counted, and room is added for the decimal point and the decimals.
pub open spec fn cell_width(widest: nat, empty_width: nat) -> nat {
    let asked = if widest == 0 {
        empty_width
    } else {
        widest
    };
    let counted = if asked > 9 {
        9
    } else {
        asked
    };
    counted + 1 + PRECISION as nat
}

/// The room left free at the right end of each row.
pub open spec fn right_padding(width: nat) -> nat {
    width / 2
}

/// The width of what stands between the two vertical bars of a row of
/// `columns` cells.
pub open spec fn total_width(columns: nat, width: nat) -> nat {
    columns * width + right_padding(width)
}

/// The line that says where the value was printed from. It is there only if
/// both the file and the line are known.
pub open spec fn location_text(file: Option<&str>, line: Option<u32>) -> Seq<char> {
    match (file, line) {
        (Some(file), Some(line)) => file@ + ":"@ + "\x1b[33m"@ + decimal(line as nat) + "\x1b[0m"@
            + "\n"@,
        _ => Seq::empty(),
    }
}

/// The plain upper border: a line of `width` dashes between two corners.
pub open spec fn plain_top_text(width: nat) -> Seq<char> {
    "\u{256d}"@ + repeated('\u{2500}', width) + "\u{256e}"@ + "\n"@
}

/// The upper border. A name is written into the border at the left and the
/// dimensions at the right, as far as both fit into `width` bytes; a longer
/// name stands with the dimensions on a line of its own above a plain border.
pub open spec fn top_text(name: Option<&str>, dims: Seq<char>, width: nat) -> Seq<char> {
    match name {
        Some(name) => {
            if encode_utf8(name@).len() + dims.len() > width {
                "\x1b[36m"@ + name@ + "\x1b[0m"@ + ":"@ + "\x1b[35m"@ + dims + "\x1b[0m"@ + "\n"@
                    + plain_top_text(width)
            } else {
                "\u{256d}"@ + "\x1b[36m"@ + name@ + "\x1b[0m"@ + repeated(
                    '\u{2500}',
                    (width - encode_utf8(name@).len() - dims.len()) as nat,
                ) + "\x1b[35m"@ + dims + "\x1b[0m"@ + "\u{256e}"@ + "\n"@
            }
        },
        None => plain_top_text(width),
    }
}

/// The lower border: a line of `width` dashes between two corners.
pub open spec fn bottom_text(width: nat) -> Seq<char> {
    "\u{2570}"@ + repeated('\u{2500}', width) + "\u{256f}"@ + "\n"@
}

/// The cells one after another, each in a column of `width` characters.
pub open spec fn cells_text(cells: Seq<Cell>, width: nat) -> Seq<char>
    decreases cells.len(),
{
    if cells.len() == 0 {
        Seq::empty()
    } else {
        cells_text(cells.drop_last(), width) + cells.last().text(width)
    }
}

/// One row: the cells between two vertical bars, with the padding behind
/// the last cell.
pub open spec fn row_text(cells: Seq<Cell>, width: nat) -> Seq<char> {
    "\u{2502}"@ + cells_text(cells, width) + repeated(' ', right_padding(width)) + "\u{2502}"@
        + "\n"@
}

/// The rows one below another.
pub open spec fn rows_text(rows: Seq<Seq<Cell>>, width: nat) -> Seq<char>
    decreases rows.len(),
{
    if rows.len() == 0 {
        Seq::empty()
    } else {
        rows_text(rows.drop_last(), width) + row_text(rows.last(), width)
    }
}

/// The dimensions of a vector of `len` elements.
pub open spec fn vector_dims(len: nat) -> Seq<char> {
    decimal(len) + "x"@ + decimal(1)
}

/// The dimensions of a matrix of `nrows` rows and `ncols` columns.
pub open spec fn matrix_dims(nrows: nat, ncols: nat) -> Seq<char> {
    decimal(nrows) + "x"@ + decimal(ncols)
}

/// The column width of a vector with the elements `cells`.
pub open spec fn vector_cell_width(cells: Seq<Cell>) -> nat {
    cell_width(widest(cells), 4)
}

/// The column width of a matrix with the rows `rows`.
pub open spec fn matrix_cell_width(rows: Seq<Seq<Cell>>) -> nat {
    cell_width(widest_of_rows(rows), 5)
}

/// A vector with the elements `cells`, framed: where it was printed from, the
/// upper border with the name and the dimensions, the elements in one row,
/// and the lower border.
pub open spec fn vector_text(
    cells: Seq<Cell>,
    name: Option<&str>,
    file: Option<&str>,
    line: Option<u32>,
) -> Seq<char> {
    let width = vector_cell_width(cells);
    let total = total_width(cells.len(), width);
    location_text(file, line) + top_text(name, vector_dims(cells.len()), total) + row_text(
        cells,
        width,
    ) + bottom_text(total)
}

/// A matrix with the rows `rows` and `ncols` columns, framed: where it was
/// printed from, the upper border with the name and the dimensions, the rows,
/// and the lower border.
pub open spec fn matrix_text(
    rows: Seq<Seq<Cell>>,
    ncols: nat,
    name: Option<&str>,
    file: Option<&str>,
    line: Option<u32>,
) -> Seq<char> {
    let width = matrix_cell_width(rows);
    let total = total_width(ncols, width);
    location_text(file, line) + top_text(name, matrix_dims(rows.len(), ncols), total)
        + rows_text(rows, width) + bottom_text(total)
}

/// The rows of cells that `rows` holds.
pub open spec fn rows_view(rows: Seq<Vec<Cell>>) -> Seq<Seq<Cell>> {
    Seq::new(rows.len(), |i: int| rows[i]@)
}

/// A width with all that lies above 10 cut off: the column width counts no
/// more than 9 integral characters, so 10 stands for every larger width.
pub open spec fn capped(width: nat) -> nat {
    if width > 10 {
        10
    } else {
        width
    }
}

/// The width that `cell` asks for, cut off at 10.
fn capped_integral_width(cell: &Cell) -> (width: usize)
    ensures
        width == capped(cell.integral_width()),
{
    match cell.integral_digits {
        Some(digits) => if digits >= 9 {
            10
        } else {
            digits + 1
        },
        None => 1,
    }
}

/// The largest width that any of `cells` asks for, cut off at 10.
fn capped_widest(cells: &Vec<Cell>) -> (width: usize)
    ensures
        width == capped(widest(cells@)),
{
    let mut max_width: usize = 0;
    let mut next: usize = 0;
    assert(cells@.take(0) =~= Seq::<Cell>::empty());
    while next < cells.len()
        invariant
            next <= cells.len(),
            max_width == capped(widest(cells@.take(next as int))),
        decreases cells.len() - next,
    {
        let width = capped_integral_width(&cells[next]);
        assert(cells@.take(next + 1).drop_last() =~= cells@.take(next as int));
        if width > max_width {
            max_width = width;
        }
        next += 1;
    }
    assert(cells@.take(next as int) =~= cells@);
    max_width
}

/// The largest width that any cell of `rows` asks for, cut off at 10.
fn capped_widest_of_rows(rows: &Vec<Vec<Cell>>) -> (width: usize)
    ensures
        width == capped(widest_of_rows(rows_view(rows@))),
{
    let mut max_width: usize = 0;
    let mut next: usize = 0;
    assert(rows_view(rows@).take(0) =~= Seq::<Seq<Cell>>::empty());
    while next < rows.len()
        invariant
            next <= rows.len(),
            max_width == capped(widest_of_rows(rows_view(rows@).take(next as int))),
        decreases rows.len() - next,
    {
        let width = capped_widest(&rows[next]);
        assert(rows_view(rows@).take(next + 1).drop_last() =~= rows_view(rows@).take(
            next as int,
        ));
        if width > max_width {
            max_width = width;
        }
        next += 1;
    }
    assert(rows_view(rows@).take(next as int) =~= rows_view(rows@));
    max_width
}

/// The column width for a widest cell of `max_width` characters, which may
/// have been cut off at 10. Widths are computed in 128 bits, where the
/// products of a width and a number of columns cannot overflow.
fn column_width(max_width: usize, empty_width: usize) -> (width: u128)
    requires
        max_width <= 10,
        0 < empty_width <= 9,
    ensures
        forall|widest: nat|
            capped(widest) == max_width ==> width == #[trigger] cell_width(
                widest,
                empty_width as nat,
            ),
        PRECISION + 2 <= width <= PRECISION + 10,
{
    let mut max_width = max_width;
    if max_width == 0 {
        max_width = empty_width;
    }
    let integral_digits_limit: usize = 9;
    if max_width > integral_digits_limit {
        max_width = integral_digits_limit;
    }
    max_width += 1 + PRECISION;
    max_width as u128
}

/// Appends `cell` in a column of `width` characters to `buffer`.
fn push_cell(buffer: &mut String, cell: &Cell, width: u128)
    ensures
        final(buffer)@ == old(buffer)@ + cell.text(width as nat),
{
    buffer.append(cell.kind.color());
    let shown = if cell.exceeds_million {
        cell.scientific.as_str()
    } else {
        cell.fixed.as_str()
    };
    let len = shown.unicode_len() as u128;
    if len < width {
        proof {
            reveal_strlit(" ");
        }
        push_repeated(buffer, " ", width - len);
    }
    buffer.append(shown);
    buffer.append("\x1b[0m");
    assert(buffer@ =~= old(buffer)@ + cell.text(width as nat));
}

/// Appends one row of cells in columns of `width` characters to `buffer`.
fn push_row(buffer: &mut String, cells: &Vec<Cell>, width: u128)
    ensures
        final(buffer)@ == old(buffer)@ + row_text(cells@, width as nat),
{
    buffer.append("\u{2502}");
    let ghost start = buffer@;
    let mut next: usize = 0;
    assert(cells@.take(0) =~= Seq::<Cell>::empty());
    assert(buffer@ =~= start + cells_text(cells@.take(0), width as nat));
    while next < cells.len()
        invariant
            next <= cells.len(),
            buffer@ == start + cells_text(cells@.take(next as int), width as nat),
        decreases cells.len() - next,
    {
        push_cell(buffer, &cells[next], width);
        assert(cells@.take(next + 1).drop_last() =~= cells@.take(next as int));
        assert(buffer@ =~= start + cells_text(cells@.take(next + 1), width as nat));
        next += 1;
    }
    assert(cells@.take(next as int) =~= cells@);
    proof {
        reveal_strlit(" ");
    }
    push_repeated(buffer, " ", width / 2);
    buffer.append("\u{2502}");
    buffer.append("\n");
    assert(buffer@ =~= old(buffer)@ + row_text(cells@, width as nat));
}

/// Appends the line that says where the value was printed from to `buffer`,
/// if both the file and the line are known.
fn push_location(buffer: &mut String, file: Option<&str>, line: Option<u32>)
    ensures
        final(buffer)@ == old(buffer)@ + location_text(file, line),
{
    match (file, line) {
        (Some(file), Some(line)) => {
            buffer.append(file);
            buffer.append(":");
            buffer.append("\x1b[33m");
            push_decimal(buffer, line as u64);
            buffer.append("\x1b[0m");
            buffer.append("\n");
            assert(buffer@ =~= old(buffer)@ + location_text(Some(file), Some(line)));
        },
        _ => {
            assert(buffer@ =~= old(buffer)@ + location_text(file, line));
        },
    }
}

/// Appends a border to `buffer`: a line of `width` dashes between the
/// corners `left` and `right`.
fn push_border(buffer: &mut String, left: &str, width: u128, right: &str)
    ensures
        final(buffer)@ == old(buffer)@ + left@ + repeated('\u{2500}', width as nat) + right@
            + "\n"@,
{
    buffer.append(left);
    proof {
        reveal_strlit("\u{2500}");
    }
    push_repeated(buffer, "\u{2500}", width);
    buffer.append(right);
    buffer.append("\n");
}

/// Appends the upper border with the name and the dimensions to `buffer`.
fn push_top(buffer: &mut String, name: Option<&str>, dims: &str, width: u128)
    ensures
        final(buffer)@ == old(buffer)@ + top_text(name, dims@, width as nat),
{
    match name {
        Some(name) => {
            let name_len = name.as_bytes().len() as u128;
            let dims_len = dims.unicode_len() as u128;
            if name_len + dims_len > width {
                buffer.append("\x1b[36m");
                buffer.append(name);
                buffer.append("\x1b[0m");
                buffer.append(":");
                buffer.append("\x1b[35m");
                buffer.append(dims);
                buffer.append("\x1b[0m");
                buffer.append("\n");
                let ghost above = buffer@;
                push_border(buffer, "\u{256d}", width, "\u{256e}");
                proof {
                    let heading = "\x1b[36m"@ + name@ + "\x1b[0m"@ + ":"@ + "\x1b[35m"@ + dims@
                        + "\x1b[0m"@ + "\n"@;
                    let border = plain_top_text(width as nat);
                    assert(above =~= old(buffer)@ + heading);
                    assert(buffer@ =~= above + border);
                    assert(top_text(Some(name), dims@, width as nat) == heading + border);
                    assert((old(buffer)@ + heading) + border =~= old(buffer)@ + (heading
                        + border));
                }
            } else {
                buffer.append("\u{256d}");
                buffer.append("\x1b[36m");
                buffer.append(name);
                buffer.append("\x1b[0m");
                proof {
                    reveal_strlit("\u{2500}");
                }
                push_repeated(buffer, "\u{2500}", width - name_len - dims_len);
                buffer.append("\x1b[35m");
                buffer.append(dims);
                buffer.append("\x1b[0m");
                buffer.append("\u{256e}");
                buffer.append("\n");
                proof {
                    let dashes = repeated(
                        '\u{2500}',
                        (width - encode_utf8(name@).len() - dims@.len()) as nat,
                    );
                    let border = "\u{256d}"@ + "\x1b[36m"@ + name@ + "\x1b[0m"@ + dashes
                        + "\x1b[35m"@ + dims@ + "\x1b[0m"@ + "\u{256e}"@ + "\n"@;
                    assert(top_text(Some(name), dims@, width as nat) == border);
                    assert(buffer@ =~= old(buffer)@ + border);
                }
            }
        },
        None => {
            push_border(buffer, "\u{256d}", width, "\u{256e}");
            assert(buffer@ =~= old(buffer)@ + top_text(name, dims@, width as nat));
        },
    }
}

/// The dimensions `rows`x`columns` as text.
fn dims_string(rows: usize, columns: usize) -> (dims: String)
    ensures
        dims@ == matrix_dims(rows as nat, columns as nat),
{
    let mut dims = String::new();
    push_decimal(&mut dims, rows as u64);
    dims.append("x");
    push_decimal(&mut dims, columns as u64);
    assert(dims@ =~= matrix_dims(rows as nat, columns as nat));
    dims
}

/// Formats a vector with the elements `cells`.
///
/// The result is the framed vector: the place it was printed from if `file`
/// and `line` are given, the upper border with `name` and the dimensions, all
/// elements in one row, and the lower border.
pub fn format_vector_cells(
    cells: &Vec<Cell>,
    name: Option<&str>,
    file: Option<&str>,
    line: Option<u32>,
) -> (text: String)
    ensures
        text@ == vector_text(cells@, name, file, line),
{
    let cell_width = column_width(capped_widest(cells), 4);
    let right_padding = cell_width / 2;
    assert(cells.len() * cell_width <= usize::MAX * 13) by (nonlinear_arith)
        requires
            cells.len() <= usize::MAX,
            0 <= cell_width <= 13,
    ;
    let total_width = cells.len() as u128 * cell_width + right_padding;
    let dims = dims_string(cells.len(), 1);

    let mut text = String::new();
    push_location(&mut text, file, line);
    push_top(&mut text, name, dims.as_str(), total_width);
    push_row(&mut text, cells, cell_width);
    push_border(&mut text, "\u{2570}", total_width, "\u{256f}");
    assert(text@ =~= vector_text(cells@, name, file, line));
    text
}

/// Formats a matrix with the rows `rows` and `ncols` columns.
///
/// The result is the framed matrix: the place it was printed from if `file`
/// and `line` are given, the upper border with `name` and the dimensions, one
/// line for each row, and the lower border.
pub fn format_matrix_cells(
    rows: &Vec<Vec<Cell>>,
    ncols: usize,
    name: Option<&str>,
    file: Option<&str>,
    line: Option<u32>,
) -> (text: String)
    ensures
        text@ == matrix_text(rows_view(rows@), ncols as nat, name, file, line),
{
    let cell_width = column_width(capped_widest_of_rows(rows), 5);
    let right_padding = cell_width / 2;
    assert(ncols * cell_width <= usize::MAX * 13) by (nonlinear_arith)
        requires
            ncols <= usize::MAX,
            0 <= cell_width <= 13,
    ;
    let total_width = ncols as u128 * cell_width + right_padding;
    let dims = dims_string(rows.len(), ncols);

    let mut text = String::new();
    push_location(&mut text, file, line);
    push_top(&mut text, name, dims.as_str(), total_width);
    let ghost start = text@;
    let mut next: usize = 0;
    assert(rows_view(rows@).take(0) =~= Seq::<Seq<Cell>>::empty());
    assert(text@ =~= start + rows_text(rows_view(rows@).take(0), cell_width as nat));
    while next < rows.len()
        invariant
            next <= rows.len(),
            text@ == start + rows_text(rows_view(rows@).take(next as int), cell_width as nat),
        decreases rows.len() - next,
    {
        push_row(&mut text, &rows[next], cell_width);
        assert(rows_view(rows@).take(next + 1).drop_last() =~= rows_view(rows@).take(
            next as int,
        ));
        assert(text@ =~= start + rows_text(
            rows_view(rows@).take(next + 1),
            cell_width as nat,
        ));
        next += 1;
    }
    assert(rows_view(rows@).take(next as int) =~= rows_view(rows@));
    push_border(&mut text, "\u{2570}", total_width, "\u{256f}");
    assert(text@ =~= matrix_text(rows_view(rows@), ncols as nat, name, file, line));
    text
}

/// A vector that can be pretty printed.
pub trait PrettyPrintVector: Sized {
    /// Returns the length of the vector.
    fn len(&self) -> usize;

    /// Returns the element at index `i`, which is below the length.
    fn at(&self, i: usize) -> Cell
        requires
            exists|len: usize| call_ensures(Self::len, (self,), len) && i < len,
    ;

    /// Pretty format the vector: the text of [`format_vector_cells`] for the
    /// elements that `len` and `at` hand out.
    fn pretty_format(&self) -> (text: String)
        ensures
            exists|cells: Seq<Cell>, len: usize|
                {
                    &&& cells.len() == len
                    &&& call_ensures(Self::len, (self,), len)
                    &&& forall|i: usize|
                        i < len ==> call_ensures(Self::at, (self, i), #[trigger] cells[i as int])
                    &&& text@ == vector_text(cells, None, None, None)
                },
    {
        let len = self.len();
        let mut cells: Vec<Cell> = Vec::new();
        let mut next: usize = 0;
        while next < len
            invariant
                next <= len,
                call_ensures(Self::len, (self,), len),
                cells@.len() == next,
                forall|i: usize|
                    i < next ==> call_ensures(Self::at, (self, i), #[trigger] cells@[i as int]),
            decreases len - next,
        {
            cells.push(self.at(next));
            next += 1;
        }
        format_vector_cells(&cells, None, None, None)
    }
}

/// A matrix that can be pretty printed.
pub trait PrettyPrintMatrix: Sized {
    /// Returns the shape of the matrix as a tuple `(nrows, ncols)`.
    fn shape(&self) -> (usize, usize);

    /// Returns the element at index `(i, j)`, which lies inside the shape.
    fn at(&self, i: usize, j: usize) -> Cell
        requires
            exists|nrows: usize, ncols: usize|
                call_ensures(Self::shape, (self,), (nrows, ncols)) && i < nrows && j < ncols,
    ;

    /// Pretty format the matrix: the text of [`format_matrix_cells`] for the
    /// elements that `shape` and `at` hand out.
    fn pretty_format(&self) -> (text: String)
        ensures
            exists|rows: Seq<Seq<Cell>>, nrows: usize, ncols: usize|
                {
                    &&& rows.len() == nrows
                    &&& call_ensures(Self::shape, (self,), (nrows, ncols))
                    &&& forall|i: usize| i < nrows ==> (#[trigger] rows[i as int]).len() == ncols
                    &&& forall|i: usize, j: usize|
                        i < nrows && j < ncols ==> call_ensures(
                            Self::at,
                            (self, i, j),
                            #[trigger] rows[i as int][j as int],
                        )
                    &&& text@ == matrix_text(rows, ncols as nat, None, None, None)
                },
    {
        let (nrows, ncols) = self.shape();
        let mut rows: Vec<Vec<Cell>> = Vec::new();
        let mut i: usize = 0;
        while i < nrows
            invariant
                i <= nrows,
                call_ensures(Self::shape, (self,), (nrows, ncols)),
                rows@.len() == i,
                forall|k: usize| k < i ==> (#[trigger] rows@[k as int])@.len() == ncols,
                forall|k: usize, l: usize|
                    k < i && l < ncols ==> call_ensures(
                        Self::at,
                        (self, k, l),
                        #[trigger] rows@[k as int]@[l as int],
                    ),
            decreases nrows - i,
        {
            let mut row: Vec<Cell> = Vec::new();
            let mut j: usize = 0;
            while j < ncols
                invariant
                    i < nrows,
                    j <= ncols,
                    call_ensures(Self::shape, (self,), (nrows, ncols)),
                    row@.len() == j,
                    forall|l: usize|
                        l < j ==> call_ensures(Self::at, (self, i, l), #[trigger] row@[l as int]),
                decreases ncols - j,
            {
                row.push(self.at(i, j));
                j += 1;
            }
            rows.push(row);
            i += 1;
        }
        let text = format_matrix_cells(&rows, ncols, None, None, None);
        proof {
            let gathered = rows_view(rows@);
            assert forall|k: usize, l: usize| k < nrows && l < ncols implies call_ensures(
                Self::at,
                (self, k, l),
                #[trigger] gathered[k as int][l as int],
            ) by {
                assert(gathered[k as int][l as int] == rows@[k as int]@[l as int]);
            }
            assert forall|k: usize| k < nrows implies (#[trigger] gathered[k as int]).len()
                == ncols by {
                assert(gathered[k as int] == rows@[k as int]@);
            }
        }
        text
    }
}

/// Whether `cells` are the elements that `vector` hands out: as many as its
/// `len` says, each as its `at` returns it.
pub open spec fn vector_hands_out<V: PrettyPrintVector>(vector: &V, cells: Seq<Cell>) -> bool {
    exists|len: usize|
        {
            &&& cells.len() == len
            &&& call_ensures(V::len, (vector,), len)
            &&& forall|i: usize|
                i < len ==> call_ensures(V::at, (vector, i), #[trigger] cells[i as int])
        }
}

/// Whether `rows` are the rows of `ncols` elements that `matrix` hands out:
/// as its `shape` says, each element as its `at` returns it.
pub open spec fn matrix_hands_out<M: PrettyPrintMatrix>(
    matrix: &M,
    rows: Seq<Seq<Cell>>,
    ncols: usize,
) -> bool {
    exists|nrows: usize|
        {
            &&& rows.len() == nrows
            &&& call_ensures(M::shape, (matrix,), (nrows, ncols))
            &&& forall|i: usize| i < nrows ==> (#[trigger] rows[i as int]).len() == ncols
            &&& forall|i: usize, j: usize|
                i < nrows && j < ncols ==> call_ensures(
                    M::at,
                    (matrix, i, j),
                    #[trigger] rows[i as int][j as int],
                )
        }
}

/// Formats `vector` with a frame around it, `name` and the dimensions in the
/// upper border, and above it the place it was printed from where `file` and
/// `line` are given: the text of [`format_vector_cells`] for the elements
/// that the vector hands out.
pub fn _pretty_format_vector<V: PrettyPrintVector>(
    vector: &V,
    name: Option<&str>,
    file: Option<&str>,
    line: Option<u32>,
) -> (text: String)
    ensures
        exists|cells: Seq<Cell>|
            vector_hands_out(vector, cells) && text@ == vector_text(cells, name, file, line),
{
    let len = vector.len();
    let mut cells: Vec<Cell> = Vec::new();
    let mut next: usize = 0;
    while next < len
        invariant
            next <= len,
            call_ensures(V::len, (vector,), len),
            cells@.len() == next,
            forall|i: usize|
                i < next ==> call_ensures(V::at, (vector, i), #[trigger] cells@[i as int]),
        decreases len - next,
    {
        cells.push(vector.at(next));
        next += 1;
    }
    let text = format_vector_cells(&cells, name, file, line);
    assert(vector_hands_out(vector, cells@));
    text
}

/// Formats `matrix` with a frame around it, `name` and the dimensions in the
/// upper border, and above it the place it was printed from where `file` and
/// `line` are given: the text of [`format_matrix_cells`] for the elements
/// that the matrix hands out.
pub fn _pretty_format_matrix<M: PrettyPrintMatrix>(
    matrix: &M,
    name: Option<&str>,
    file: Option<&str>,
    line: Option<u32>,
) -> (text: String)
    ensures
        exists|rows: Seq<Seq<Cell>>, ncols: usize|
            matrix_hands_out(matrix, rows, ncols) && text@ == matrix_text(
                rows,
                ncols as nat,
                name,
                file,
                line,
            ),
{
    let (nrows, ncols) = matrix.shape();
    let mut rows: Vec<Vec<Cell>> = Vec::new();
    let mut i: usize = 0;
    while i < nrows
        invariant
            i <= nrows,
            call_ensures(M::shape, (matrix,), (nrows, ncols)),
            rows@.len() == i,
            forall|k: usize| k < i ==> (#[trigger] rows@[k as int])@.len() == ncols,
            forall|k: usize, l: usize|
                k < i && l < ncols ==> call_ensures(
                    M::at,
                    (matrix, k, l),
                    #[trigger] rows@[k as int]@[l as int],
                ),
        decreases nrows - i,
    {
        let mut row: Vec<Cell> = Vec::new();
        let mut j: usize = 0;
        while j < ncols
            invariant
                i < nrows,
                j <= ncols,
                call_ensures(M::shape, (matrix,), (nrows, ncols)),
                row@.len() == j,
                forall|l: usize|
                    l < j ==> call_ensures(M::at, (matrix, i, l), #[trigger] row@[l as int]),
            decreases ncols - j,
        {
            row.push(matrix.at(i, j));
            j += 1;
        }
        rows.push(row);
        i += 1;
    }
    let text = format_matrix_cells(&rows, ncols, name, file, line);
    proof {
        let gathered = rows_view(rows@);
        assert forall|k: usize, l: usize| k < nrows && l < ncols implies call_ensures(
            M::at,
            (matrix, k, l),
            #[trigger] gathered[k as int][l as int],
        ) by {
            assert(gathered[k as int][l as int] == rows@[k as int]@[l as int]);
        }
        assert forall|k: usize| k < nrows implies (#[trigger] gathered[k as int]).len()
            == ncols by {
            assert(gathered[k as int] == rows@[k as int]@);
        }
        assert(matrix_hands_out(matrix, gathered, ncols));
    }
    text
}

/// A matrix of cells, stored row by row.
#[derive(Debug)]
pub struct CellMatrix {
    nrows: usize,
    ncols: usize,
    cells: Vec<Cell>,
}

impl CellMatrix {
    #[verifier::type_invariant]
    spec fn rectangular(self) -> bool {
        self.cells@.len() == self.nrows * self.ncols
    }

    /// The shape of the matrix: the number of rows and of columns.
    pub closed spec fn spec_shape(&self) -> (usize, usize) {
        (self.nrows, self.ncols)
    }

    /// The cells of the matrix, row by row.
    pub closed spec fn spec_cells(&self) -> Seq<Cell> {
        self.cells@
    }

    /// The matrix of `nrows` rows and `ncols` columns with the cells `cells`,
    /// row by row; or `None` if there are not `nrows * ncols` of them.
    pub fn new(nrows: usize, ncols: usize, cells: Vec<Cell>) -> (matrix: Option<Self>)
        ensures
            matrix.is_some() <==> cells@.len() == nrows * ncols,
            matrix.is_some() ==> matrix.unwrap().spec_shape() == (nrows, ncols)
                && matrix.unwrap().spec_cells() == cells@,
    {
        let len = cells.len();
        match nrows.checked_mul(ncols) {
            Some(count) => {
                if len == count {
                    Some(CellMatrix { nrows, ncols, cells })
                } else {
                    None
                }
            },
            None => {
                None
            },
        }
    }
}

impl PrettyPrintMatrix for CellMatrix {
    fn shape(&self) -> (shape: (usize, usize))
        ensures
            shape == self.spec_shape(),
    {
        (self.nrows, self.ncols)
    }

    fn at(&self, i: usize, j: usize) -> (cell: Cell)
        ensures
            cell == self.spec_cells()[i * self.spec_shape().1 + j],
    {
        proof {
            use_type_invariant(self);
            assert(i < self.nrows && j < self.ncols);
            assert(self.cells@.len() == self.cells.len());
            assert(0 <= i * self.ncols && i * self.ncols + j < self.nrows * self.ncols) by (
                nonlinear_arith)
                requires
                    0 <= i < self.nrows,
                    0 <= j < self.ncols,
            ;
        }
        self.cells[i * self.ncols + j].clone()
    }
}

impl PrettyPrintVector for Vec<Cell> {
    fn len(&self) -> (len: usize)
        ensures
            len == self@.len(),
    {
        Vec::len(self)
    }

    fn at(&self, i: usize) -> (cell: Cell)
        ensures
            cell == self@[i as int],
    {
        self[i].clone()
    }
}

} // verus!
