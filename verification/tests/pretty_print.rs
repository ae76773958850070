use magics::pretty_print::{
    format_matrix_cells, format_vector_cells, Cell, CellMatrix, NumberKind, PrettyPrintMatrix,
    PrettyPrintVector, _pretty_format_matrix, _pretty_format_vector,
};

const RESET_TEXT: &str = "\x1b[0m";
const RED_TEXT: &str = "\x1b[31m";
const GREEN_TEXT: &str = "\x1b[32m";
const YELLOW_TEXT: &str = "\x1b[33m";
const MAGENTA_TEXT: &str = "\x1b[35m";
const CYAN_TEXT: &str = "\x1b[36m";

fn num_of_integral_digits(mut f: f64) -> Option<usize> {
    if f.is_nan() || f.is_infinite() {
        return None;
    }
    let mut count = 0_usize;
    if f.is_sign_negative() {
        f = -f;
        count += 1;
    }
    if f < 1.0 {
        count += 1;
    }
    while f >= 1.0 {
        f /= 10.0;
        count += 1;
    }
    Some(count)
}

fn kind_of(f: f64) -> NumberKind {
    if f.is_nan() {
        NumberKind::NotANumber
    } else if f.is_infinite() {
        NumberKind::Infinite
    } else if f.is_sign_negative() {
        NumberKind::Negative
    } else if f > 0.0 {
        NumberKind::Positive
    } else {
        NumberKind::Zero
    }
}

fn float_color(f: f64) -> &'static str {
    if f.is_nan() {
        MAGENTA_TEXT
    } else if f.is_infinite() {
        YELLOW_TEXT
    } else if f.is_sign_negative() {
        RED_TEXT
    } else if f > 0.0 {
        GREEN_TEXT
    } else {
        RESET_TEXT
    }
}

fn cell(x: f64) -> Cell {
    Cell {
        kind: kind_of(x),
        integral_digits: num_of_integral_digits(x),
        exceeds_million: x.abs() > 1e6,
        fixed: format!("{:.3}", x),
        scientific: format!("{:.3e}", x),
    }
}

fn cells(values: &[f64]) -> Vec<Cell> {
    values.iter().map(|x| cell(*x)).collect()
}

fn formatted(x: f64, cell_width: usize) -> String {
    if x.abs() > 1e6 {
        format!(
            "{}{:cell_width$.precision$e}{}",
            float_color(x),
            x,
            RESET_TEXT,
            cell_width = cell_width,
            precision = 3
        )
    } else {
        format!(
            "{}{:cell_width$.precision$}{}",
            float_color(x),
            x,
            RESET_TEXT,
            cell_width = cell_width,
            precision = 3
        )
    }
}

fn cell_width_of(values: &[f64], empty_width: usize) -> usize {
    let mut max_width = 0;
    for x in values {
        let width = num_of_integral_digits(*x).unwrap_or(0) + 1;
        if width > max_width {
            max_width = width;
        }
    }
    if max_width == 0 {
        max_width = empty_width;
    }
    if max_width > 9 {
        max_width = 9;
    }
    max_width + 1 + 3
}

fn top(name: Option<&str>, dims: &str, total_width: usize) -> String {
    let horizontal_line = "─".repeat(total_width);
    let mut text = String::new();
    if let Some(name) = name {
        if name.len() + dims.len() > total_width {
            text.push_str(&format!(
                "{}{}{}:{}{}{}\n",
                CYAN_TEXT, name, RESET_TEXT, MAGENTA_TEXT, dims, RESET_TEXT
            ));
            text.push_str(&format!("╭{}╮\n", horizontal_line));
        } else {
            text.push_str(&format!(
                "╭{}{}{}{}{}{}{}╮\n",
                CYAN_TEXT,
                name,
                RESET_TEXT,
                "─".repeat(total_width - name.len() - dims.len()),
                MAGENTA_TEXT,
                dims,
                RESET_TEXT
            ));
        }
    } else {
        text.push_str(&format!("╭{}╮\n", horizontal_line));
    }
    text
}

fn expected_vector(
    values: &[f64],
    name: Option<&str>,
    file: Option<&str>,
    line: Option<u32>,
) -> String {
    let cell_width = cell_width_of(values, 4);
    let right_padding = cell_width / 2;
    let total_width = values.len() * cell_width + right_padding;
    let dims = format!("{}x{}", values.len(), 1);
    let mut text = String::new();
    if let (Some(file), Some(line)) = (file, line) {
        text.push_str(&format!("{}:{}{}{}\n", file, YELLOW_TEXT, line, RESET_TEXT));
    }
    text.push_str(&top(name, &dims, total_width));
    text.push('│');
    for x in values {
        text.push_str(&formatted(*x, cell_width));
    }
    text.push_str(&format!("{}│\n", " ".repeat(right_padding)));
    text.push_str(&format!("╰{}╯\n", "─".repeat(total_width)));
    text
}

fn expected_matrix(
    rows: &[Vec<f64>],
    ncols: usize,
    name: Option<&str>,
    file: Option<&str>,
    line: Option<u32>,
) -> String {
    let all: Vec<f64> = rows.iter().flatten().copied().collect();
    let cell_width = cell_width_of(&all, 5);
    let right_padding = cell_width / 2;
    let total_width = ncols * cell_width + right_padding;
    let dims = format!("{}x{}", rows.len(), ncols);
    let mut text = String::new();
    if let (Some(file), Some(line)) = (file, line) {
        text.push_str(&format!("{}:{}{}{}\n", file, YELLOW_TEXT, line, RESET_TEXT));
    }
    text.push_str(&top(name, &dims, total_width));
    for row in rows {
        text.push('│');
        for x in row {
            text.push_str(&formatted(*x, cell_width));
        }
        text.push_str(&format!("{}│\n", " ".repeat(right_padding)));
    }
    text.push_str(&format!("╰{}╯\n", "─".repeat(total_width)));
    text
}

struct Floats(Vec<f64>);

impl PrettyPrintVector for Floats {
    fn len(&self) -> usize {
        self.0.len()
    }

    fn at(&self, i: usize) -> Cell {
        cell(self.0[i])
    }
}

struct Grid {
    nrows: usize,
    ncols: usize,
    values: Vec<f64>,
}

impl PrettyPrintMatrix for Grid {
    fn shape(&self) -> (usize, usize) {
        (self.nrows, self.ncols)
    }

    fn at(&self, i: usize, j: usize) -> Cell {
        cell(self.values[i * self.ncols + j])
    }
}

#[test]
fn vector_without_name_is_framed() {
    let values = [1.0, -2.5, 0.0];
    let text = format_vector_cells(&cells(&values), None, None, None);
    assert_eq!(text, expected_vector(&values, None, None, None));
    assert_eq!(
        text,
        "╭────────────────────────╮\n│\x1b[32m  1.000\x1b[0m\x1b[31m -2.500\x1b[0m\x1b[0m  0.000\x1b[0m   │\n╰────────────────────────╯\n"
    );
}

#[test]
fn vector_with_short_name_has_it_in_the_border() {
    let values = [10.0, 200.0, 3000.0, 12.25];
    let text = format_vector_cells(&cells(&values), Some("x"), None, None);
    assert_eq!(text, expected_vector(&values, Some("x"), None, None));
    assert!(text.starts_with("╭\x1b[36mx\x1b[0m"));
}

#[test]
fn vector_with_long_name_has_it_above_the_border() {
    let values = [1.0];
    let name = "a_rather_long_name_for_a_vector";
    let text = format_vector_cells(&cells(&values), Some(name), None, None);
    assert_eq!(text, expected_vector(&values, Some(name), None, None));
    assert!(text.starts_with("\x1b[36ma_rather_long_name_for_a_vector\x1b[0m:\x1b[35m1x1\x1b[0m\n╭"));
}

#[test]
fn name_length_counts_bytes() {
    // One cell of 6 and 3 of padding: 9. "µµµµ" is 4 characters and 8 bytes,
    // so with the 3 characters of "1x1" it fits by characters, not by bytes.
    let values = [1.0];
    let text = format_vector_cells(&cells(&values), Some("µµµµ"), None, None);
    assert_eq!(text, expected_vector(&values, Some("µµµµ"), None, None));
    assert!(text.starts_with("\x1b[36mµµµµ\x1b[0m:"));
    let text = format_vector_cells(&cells(&values), Some("µµµ"), None, None);
    assert_eq!(text, expected_vector(&values, Some("µµµ"), None, None));
    assert!(text.starts_with("╭\x1b[36mµµµ\x1b[0m\x1b[35m1x1"));
}

#[test]
fn location_needs_file_and_line() {
    let values = [1.5, 2.5];
    let with_both = format_vector_cells(&cells(&values), Some("v"), Some("src/main.rs"), Some(42));
    assert_eq!(
        with_both,
        expected_vector(&values, Some("v"), Some("src/main.rs"), Some(42))
    );
    assert!(with_both.starts_with("src/main.rs:\x1b[33m42\x1b[0m\n"));
    let file_only = format_vector_cells(&cells(&values), Some("v"), Some("src/main.rs"), None);
    assert_eq!(file_only, expected_vector(&values, Some("v"), None, None));
    let line_only = format_vector_cells(&cells(&values), Some("v"), None, Some(42));
    assert_eq!(line_only, expected_vector(&values, Some("v"), None, None));
}

#[test]
fn empty_vector_has_the_default_width() {
    let values: [f64; 0] = [];
    let text = format_vector_cells(&cells(&values), None, None, None);
    assert_eq!(text, expected_vector(&values, None, None, None));
    assert_eq!(text, "╭────╮\n│    │\n╰────╯\n");
}

#[test]
fn special_values_are_coloured_and_aligned() {
    let values = [f64::NAN, f64::INFINITY, f64::NEG_INFINITY, -0.0, 0.0, 1e-5];
    let text = format_vector_cells(&cells(&values), None, None, None);
    assert_eq!(text, expected_vector(&values, None, None, None));
    assert!(text.contains("\x1b[35m    NaN\x1b[0m"));
    assert!(text.contains("\x1b[33m    inf\x1b[0m"));
    assert!(text.contains("\x1b[33m   -inf\x1b[0m"));
    assert!(text.contains("\x1b[31m -0.000\x1b[0m"));
}

#[test]
fn only_special_values_give_width_one() {
    let values = [f64::NAN, f64::INFINITY];
    let text = format_vector_cells(&cells(&values), None, None, None);
    assert_eq!(text, expected_vector(&values, None, None, None));
}

#[test]
fn large_values_are_written_in_scientific_notation() {
    let values = [1e6, 1000001.0, -2.5e12, 123456789012.0];
    let text = format_vector_cells(&cells(&values), None, None, None);
    assert_eq!(text, expected_vector(&values, None, None, None));
    assert!(text.contains("1000000.000"));
    assert!(text.contains("1.000e6"));
    assert!(text.contains("-2.500e12"));
}

#[test]
fn column_width_stops_at_nine_integral_digits() {
    let values = [1e20, 1.0];
    let text = format_vector_cells(&cells(&values), None, None, None);
    assert_eq!(text, expected_vector(&values, None, None, None));
    // 9 + 1 + 3 characters per cell, 6 of padding
    assert!(text.starts_with(&format!("╭{}╮\n", "─".repeat(2 * 13 + 6))));
}

#[test]
fn text_wider_than_the_column_is_not_cut() {
    let values = [999999.0, 123456.789];
    let text = format_vector_cells(&cells(&values), None, None, None);
    assert_eq!(text, expected_vector(&values, None, None, None));
}

#[test]
fn matrix_is_framed_row_by_row() {
    let rows = vec![vec![1.0, 2.0], vec![-3.0, 4.5], vec![0.0, 100.0]];
    let given: Vec<Vec<Cell>> = rows.iter().map(|r| cells(r)).collect();
    let text = format_matrix_cells(&given, 2, Some("m"), Some("lib.rs"), Some(7));
    assert_eq!(
        text,
        expected_matrix(&rows, 2, Some("m"), Some("lib.rs"), Some(7))
    );
    assert_eq!(text.lines().count(), 6);
}

#[test]
fn empty_matrix_has_the_default_width() {
    let rows: Vec<Vec<f64>> = vec![];
    let given: Vec<Vec<Cell>> = vec![];
    let text = format_matrix_cells(&given, 0, None, None, None);
    assert_eq!(text, expected_matrix(&rows, 0, None, None, None));
    assert_eq!(text, "╭────╮\n╰────╯\n");
}

#[test]
fn vector_through_the_trait() {
    let values = vec![3.25, -1000.0, 7.0];
    let vector = Floats(values.clone());
    assert_eq!(
        _pretty_format_vector(&vector, Some("vector"), Some("a.rs"), Some(1)),
        expected_vector(&values, Some("vector"), Some("a.rs"), Some(1))
    );
    assert_eq!(
        vector.pretty_format(),
        expected_vector(&values, None, None, None)
    );
    let as_cells = cells(&values);
    assert_eq!(
        as_cells.pretty_format(),
        expected_vector(&values, None, None, None)
    );
}

#[test]
fn matrix_through_the_trait() {
    let grid = Grid {
        nrows: 2,
        ncols: 3,
        values: vec![1.0, 2.0, 3.0, 4.0, 5.0, 6.5],
    };
    let rows = vec![vec![1.0, 2.0, 3.0], vec![4.0, 5.0, 6.5]];
    assert_eq!(
        _pretty_format_matrix(&grid, Some("grid"), None, None),
        expected_matrix(&rows, 3, Some("grid"), None, None)
    );
    assert_eq!(
        grid.pretty_format(),
        expected_matrix(&rows, 3, None, None, None)
    );
}

#[test]
fn kinds_have_their_colours() {
    assert_eq!(NumberKind::NotANumber.color(), MAGENTA_TEXT);
    assert_eq!(NumberKind::Infinite.color(), YELLOW_TEXT);
    assert_eq!(NumberKind::Negative.color(), RED_TEXT);
    assert_eq!(NumberKind::Positive.color(), GREEN_TEXT);
    assert_eq!(NumberKind::Zero.color(), RESET_TEXT);
}

#[test]
fn matrix_of_cells() {
    let values = [1.0, 2.0, 3.0, 4.0, 5.0, 6.5];
    let rows = vec![vec![1.0, 2.0, 3.0], vec![4.0, 5.0, 6.5]];
    let matrix = CellMatrix::new(2, 3, cells(&values)).unwrap();
    assert_eq!(matrix.shape(), (2, 3));
    assert_eq!(matrix.at(1, 2).fixed, "6.500");
    assert_eq!(
        matrix.pretty_format(),
        expected_matrix(&rows, 3, None, None, None)
    );
    assert_eq!(
        _pretty_format_matrix(&matrix, Some("m"), None, None),
        expected_matrix(&rows, 3, Some("m"), None, None)
    );
    assert!(CellMatrix::new(2, 2, cells(&values)).is_none());
    assert!(CellMatrix::new(usize::MAX, 2, cells(&values)).is_none());
    assert!(CellMatrix::new(0, 7, vec![]).is_some());
}
