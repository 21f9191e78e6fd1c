//! The table of a text in one call, and a builder for its settings.
//!
//! The table has at most one header row, cells that are too wide are
//! truncated with an ellipsis, and numeric columns stand on the right.
use crate::number::normalized;
use crate::grid::{parsed, readings_view, rows_view};
use crate::layout::Layout;
use crate::table::TableBuilder;
use crate::text::{Alignment, Frame};
use vstd::prelude::*;
use vstd::string::StringExecFns;

verus! {

/// The limit of the width of a column that has none of its own, for a
/// `max_text_width`: the width itself, and for a width of zero, which
/// stands for no limit, the greatest width there is.
pub open spec fn text_limit(max_text_width: usize) -> usize {
    if max_text_width == 0 {
        usize::MAX
    } else {
        max_text_width
    }
}

/// The settings of the table that `run` makes.
pub open spec fn run_layout(
    ofs: Seq<char>,
    header_row: usize,
    max_width_row: usize,
    format_string_row: usize,
    no_divider: bool,
    divider_char: char,
    max_text_width: usize,
    decimal_separator: char,
    add_thousand_separator: bool,
    thousand_separator: char,
) -> Layout {
    Layout {
        ofs: ofs,
        header_index: header_row,
        header_count: 1,
        column_width_limits_index: max_width_row,
        format_string_index: format_string_row,
        no_divider: no_divider,
        divider_char: divider_char,
        max_cell_width: text_limit(max_text_width),
        frame: Frame::TRUNCATE,
        no_ellipsis: false,
        use_thousand_separator: add_thousand_separator,
        thousand_separator: thousand_separator,
        decimal_separator: decimal_separator,
        alignment: Alignment::AUTO,
    }
}

/// The text to read as a number for each field of the grid of `input`,
/// row by row.
pub open spec fn texts_to_read(
    input: Seq<char>,
    ifs: Seq<char>,
    decimal_separator: char,
    thousand_separator: char,
) -> Seq<Seq<Seq<char>>> {
    let grid = parsed(input, ifs);
    Seq::new(
        grid.len(),
        |r: int|
            Seq::new(
                grid[r].len(),
                |c: int| normalized(grid[r][c], thousand_separator, decimal_separator),
            ),
    )
}

fn table_builder(
    input: &str,
    ifs: &str,
    ofs: &str,
    header_row: usize,
    max_width_row: usize,
    format_string_row: usize,
    no_divider: bool,
    divider_char: char,
    max_text_width: usize,
    decimal_separator: char,
    add_thousand_separator: bool,
    thousand_separator: char,
) -> (b: TableBuilder)
    ensures
        b.grid() == parsed(input@, ifs@),
        b.layout() == run_layout(
            ofs@,
            header_row,
            max_width_row,
            format_string_row,
            no_divider,
            divider_char,
            max_text_width,
            decimal_separator,
            add_thousand_separator,
            thousand_separator,
        ),
{
    TableBuilder {
        input: Some(String::from_str(input)),
        ifs: String::from_str(ifs),
        ofs: String::from_str(ofs),
        header_index: header_row,
        header_count: 1,
        column_width_limits_index: max_width_row,
        format_string_index: format_string_row,
        no_divider: no_divider,
        divider_char: divider_char,
        max_cell_width: if max_text_width == 0 {
            usize::MAX
        } else {
            max_text_width
        },
        frame: Frame::TRUNCATE,
        no_ellipsis: false,
        pad_decimal_digits: false,
        max_decimal_digits: 2,
        decimal_separator: decimal_separator,
        use_thousand_separator: add_thousand_separator,
        thousand_separator: thousand_separator,
        alignment: Alignment::AUTO,
    }
}

/// The text to read as a number for each field of the grid of `input`,
/// row by row: the field without thousands separators and with `.` as the
/// decimal point. The readings that `run` takes are the readings of these
/// texts.
pub fn cells_to_read(
    input: &str,
    ifs: &str,
    decimal_separator: char,
    thousand_separator: char,
) -> (rows: Vec<Vec<String>>)
    ensures
        rows_view(rows@) == texts_to_read(input@, ifs@, decimal_separator, thousand_separator),
{
    let b = table_builder(
        input,
        ifs,
        " ",
        0,
        0,
        0,
        false,
        '-',
        0,
        decimal_separator,
        false,
        thousand_separator,
    );
    b.cells_to_read()
}

/// Formats `input` as a table. The lines of `input` that are not blank are
/// split on `ifs` into the fields of a grid. Row `header_row`, counted from
/// one, is the header, row `max_width_row` holds the limits of the column
/// widths and row `format_string_row` a template for each column (zero:
/// none); the other rows are data. A cell is at most `max_text_width`
/// columns wide unless its column has a limit of its own; a
/// `max_text_width` of zero stands for no limit, and the limit of such a
/// column is then the greatest width there is. The cells of a row are
/// joined by `ofs`, and a divider of `divider_char` follows the header
/// unless `no_divider` is set.
pub fn run(
    input: &str,
    ifs: &str,
    ofs: &str,
    header_row: usize,
    max_width_row: usize,
    format_string_row: usize,
    no_divider: bool,
    divider_char: char,
    max_text_width: usize,
    decimal_separator: char,
    add_thousand_separator: bool,
    thousand_separator: char,
    readings: &Vec<Vec<Option<String>>>,
) -> (r: String)
    ensures
        r@ == run_layout(
            ofs@,
            header_row,
            max_width_row,
            format_string_row,
            no_divider,
            divider_char,
            max_text_width,
            decimal_separator,
            add_thousand_separator,
            thousand_separator,
        ).table(parsed(input@, ifs@), readings_view(readings@)),
{
    let b = table_builder(
        input,
        ifs,
        ofs,
        header_row,
        max_width_row,
        format_string_row,
        no_divider,
        divider_char,
        max_text_width,
        decimal_separator,
        add_thousand_separator,
        thousand_separator,
    );
    b.build(readings)
}

/// The settings of a table of `input`, set one by one.
pub struct Builder<'a> {
    /// The text.
    pub input: &'a str,
    /// The separator between the fields of a line of the text.
    pub ifs: &'a str,
    /// The separator between the cells of a row of the table.
    pub ofs: &'a str,
    /// The row, counted from one, that is the header; zero for none.
    pub header_row: usize,
    /// The row, counted from one, that holds the limits of the column
    /// widths; zero for none.
    pub max_width_row: usize,
    /// The row, counted from one, that holds a template for each column;
    /// zero for none.
    pub format_string_row: usize,
    /// Whether the divider after the header is left out.
    pub no_divider: bool,
    /// The character that the divider is made of.
    pub divider_char: char,
    /// The limit of the width of a column that has none of its own; zero
    /// for no limit.
    pub max_text_width: usize,
    /// Whether numbers are rendered with a fixed number of decimal places.
    /// This is for the one who reads the numbers: the rendering is part of
    /// a reading.
    pub pad_decimal_digits: bool,
    /// That number of decimal places.
    pub max_decimal_digits: usize,
    /// The character that separates the whole part from the fraction.
    pub decimal_separator: char,
    /// Whether the digits of the whole part stand in groups of three.
    pub add_thousand_separator: bool,
    /// The character between those groups.
    pub thousand_separator: char,
}

impl<'a> Builder<'a> {
    /// A builder for `input` with the default settings: fields separated
    /// by one space, no header, no row of limits, a divider of `-`, at most
    /// 40 columns for a cell, no thousands separator, `.` as the decimal
    /// point.
    pub fn new(input: &'a str) -> (r: Self)
        ensures
            r.input@ == input@,
            r.ifs@ == " "@,
            r.ofs@ == " "@,
            r.header_row == 0,
            r.max_width_row == 0,
            r.format_string_row == 0,
            !r.no_divider,
            r.divider_char == '-',
            r.max_text_width == 40,
            !r.pad_decimal_digits,
            r.max_decimal_digits == 2,
            r.decimal_separator == '.',
            !r.add_thousand_separator,
            r.thousand_separator == ',',
    {
        Builder {
            input: input,
            ifs: " ",
            ofs: " ",
            header_row: 0,
            max_width_row: 0,
            format_string_row: 0,
            no_divider: false,
            divider_char: '-',
            max_text_width: 40,
            pad_decimal_digits: false,
            max_decimal_digits: 2,
            decimal_separator: '.',
            add_thousand_separator: false,
            thousand_separator: ',',
        }
    }

    /// Sets the separator between the fields of a line of the text.
    pub fn ifs(self, ifs: &'a str) -> (r: Self)
        ensures
            r == (Builder { ifs: ifs, ..self }),
    {
        Builder { ifs: ifs, ..self }
    }

    /// Sets the separator between the cells of a row of the table.
    pub fn ofs(self, ofs: &'a str) -> (r: Self)
        ensures
            r == (Builder { ofs: ofs, ..self }),
    {
        Builder { ofs: ofs, ..self }
    }

    /// Sets the row that is the header; zero for none.
    pub fn header_row(self, row: usize) -> (r: Self)
        ensures
            r == (Builder { header_row: row, ..self }),
    {
        Builder { header_row: row, ..self }
    }

    /// Sets the row that holds the limits of the column widths; zero for
    /// none.
    pub fn max_width_row(self, row: usize) -> (r: Self)
        ensures
            r == (Builder { max_width_row: row, ..self }),
    {
        Builder { max_width_row: row, ..self }
    }

    /// Sets the row that holds a template for each column; zero for none.
    /// A cell of a column with a template is shown as the template with
    /// the cell in place of each `{}`.
    pub fn format_string_row(self, row: usize) -> (r: Self)
        ensures
            r == (Builder { format_string_row: row, ..self }),
    {
        Builder { format_string_row: row, ..self }
    }

    /// Sets whether the divider after the header is left out.
    pub fn no_divider(self, no_divider: bool) -> (r: Self)
        ensures
            r == (Builder { no_divider: no_divider, ..self }),
    {
        Builder { no_divider: no_divider, ..self }
    }

    /// Sets the character that the divider is made of.
    pub fn divider_char(self, divider_char: char) -> (r: Self)
        ensures
            r == (Builder { divider_char: divider_char, ..self }),
    {
        Builder { divider_char: divider_char, ..self }
    }

    /// Sets the limit of the width of a column that has none of its own.
    pub fn max_text_width(self, max_text_width: usize) -> (r: Self)
        ensures
            r == (Builder { max_text_width: max_text_width, ..self }),
    {
        Builder { max_text_width: max_text_width, ..self }
    }

    /// Sets whether numbers are shown with a fixed number of decimal
    /// places.
    pub fn pad_decimal_digits(self, pad_decimal_digits: bool) -> (r: Self)
        ensures
            r == (Builder { pad_decimal_digits: pad_decimal_digits, ..self }),
    {
        Builder { pad_decimal_digits: pad_decimal_digits, ..self }
    }

    /// Sets the number of decimal places.
    pub fn max_decimal_digits(self, max_decimal_digits: usize) -> (r: Self)
        ensures
            r == (Builder { max_decimal_digits: max_decimal_digits, ..self }),
    {
        Builder { max_decimal_digits: max_decimal_digits, ..self }
    }

    /// Sets the decimal separator.
    pub fn decimal_separator(self, decimal_separator: char) -> (r: Self)
        ensures
            r == (Builder { decimal_separator: decimal_separator, ..self }),
    {
        Builder { decimal_separator: decimal_separator, ..self }
    }

    /// Sets whether the digits of the whole part stand in groups of three.
    pub fn add_thousand_separator(self, add_thousand_separator: bool) -> (r: Self)
        ensures
            r == (Builder { add_thousand_separator: add_thousand_separator, ..self }),
    {
        Builder { add_thousand_separator: add_thousand_separator, ..self }
    }

    /// Sets the thousands separator.
    pub fn thousand_separator(self, thousand_separator: char) -> (r: Self)
        ensures
            r == (Builder { thousand_separator: thousand_separator, ..self }),
    {
        Builder { thousand_separator: thousand_separator, ..self }
    }

    /// The settings as the rules of the table read them.
    pub open spec fn layout(&self) -> Layout {
        run_layout(
            self.ofs@,
            self.header_row,
            self.max_width_row,
            self.format_string_row,
            self.no_divider,
            self.divider_char,
            self.max_text_width,
            self.decimal_separator,
            self.add_thousand_separator,
            self.thousand_separator,
        )
    }

    /// The text to read as a number for each field of the grid, row by
    /// row. The readings that `format` takes are the readings of these
    /// texts.
    pub fn cells_to_read(&self) -> (rows: Vec<Vec<String>>)
        ensures
            rows_view(rows@) == texts_to_read(
                self.input@,
                self.ifs@,
                self.decimal_separator,
                self.thousand_separator,
            ),
    {
        cells_to_read(self.input, self.ifs, self.decimal_separator, self.thousand_separator)
    }

    /// The table of the text with these settings.
    pub fn format(self, readings: &Vec<Vec<Option<String>>>) -> (r: String)
        ensures
            r@ == self.layout().table(parsed(self.input@, self.ifs@), readings_view(readings@)),
    {
        run(
            self.input,
            self.ifs,
            self.ofs,
            self.header_row,
            self.max_width_row,
            self.format_string_row,
            self.no_divider,
            self.divider_char,
            self.max_text_width,
            self.decimal_separator,
            self.add_thousand_separator,
            self.thousand_separator,
            readings,
        )
    }
}

} // verus!
