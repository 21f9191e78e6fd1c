//! The builder of a table: the text, the settings, and the table that is
//! made of them.
//!
//! The functions that need to know which cells are numbers take
//! `readings`: for each field of the grid, row by row, the reading of the
//! text that `TableBuilder::cells_to_read` gives for it (see the `number`
//! module). The readings of header rows and of the row of limits are not
//! looked at.
use crate::chars::{
    clean_chars, cleaned, extend_repeated, join, lemma_clean_idempotent, repeated, slice, texts,
    to_chars, to_text, to_texts, trim_end, views,
};
use crate::frame::nl;
use crate::grid::{
    cell, columns, count_columns, grid_view, lemma_columns, parse_chars, parsed, reading_at,
    reading_chars, readings_view, rows_view,
};
use crate::layout::{fill, fit_cell, line_at, place, side, wider, Layout};
use crate::number::{format_number, normalize, normalized, parse_usize};
use crate::text::{Alignment, Frame};
use crate::width::{cells, width_of};
use vstd::prelude::*;

verus! {

/// The settings of a table and the text that it is made from.
#[derive(Clone, Debug)]
pub struct TableBuilder {
    /// The text, cleaned of blank lines; missing where none was given.
    pub input: Option<String>,
    /// The separator between the fields of a line of the text.
    pub ifs: String,
    /// The separator between the cells of a row of the table.
    pub ofs: String,
    /// The row with which the headers start, counted from one among the
    /// lines of the text that are not blank; zero where the table has no
    /// headers.
    pub header_index: usize,
    /// The number of header rows.
    pub header_count: usize,
    /// The row, counted in the same way, that holds the limits of the
    /// column widths; zero where there is none.
    pub column_width_limits_index: usize,
    /// The row, counted in the same way, that holds a template for each
    /// column; zero where there is none. A cell of a column with a
    /// template is shown as the template with the cell in place of each
    /// `{}`.
    pub format_string_index: usize,
    /// Whether the divider between headers and data is left out.
    pub no_divider: bool,
    /// The character that the divider is made of.
    pub divider_char: char,
    /// The limit of the width of a column that has none of its own.
    pub max_cell_width: usize,
    /// How a text that is too wide for its column is made to fit.
    pub frame: Frame,
    /// Whether a truncated text is left without the ellipsis.
    pub no_ellipsis: bool,
    /// Whether numbers are rendered with a fixed number of decimal places.
    /// This is for the one who reads the numbers: the rendering is part of
    /// a reading.
    pub pad_decimal_digits: bool,
    /// That number of decimal places.
    pub max_decimal_digits: usize,
    /// The character that separates the whole part from the fraction.
    pub decimal_separator: char,
    /// Whether the digits of the whole part stand in groups of three.
    pub use_thousand_separator: bool,
    /// The character between those groups.
    pub thousand_separator: char,
    /// On which side of its column a cell stands.
    pub alignment: Alignment,
}

/// The limit of the width of a column of a builder that was given none.
pub const DEFAULT_CELL_WIDTH: usize = 80;

impl Default for TableBuilder {
    fn default() -> (r: Self)
        ensures
            r.input is None,
            r.ifs@ == " "@,
            r.ofs@ == " "@,
            r == TableBuilder::initial(r.input, r.ifs, r.ofs),
    {
        TableBuilder::new(None)
    }
}

impl TableBuilder {
    /// The builder of `input` with the settings that a new one has.
    pub open spec fn initial(input: Option<String>, ifs: String, ofs: String) -> TableBuilder {
        TableBuilder {
            input: input,
            ifs: ifs,
            ofs: ofs,
            header_index: 1,
            header_count: 1,
            column_width_limits_index: 0,
            format_string_index: 0,
            no_divider: false,
            divider_char: '-',
            max_cell_width: DEFAULT_CELL_WIDTH,
            frame: Frame::TRUNCATE,
            no_ellipsis: false,
            pad_decimal_digits: false,
            max_decimal_digits: 2,
            decimal_separator: '.',
            use_thousand_separator: false,
            thousand_separator: ',',
            alignment: Alignment::AUTO,
        }
    }

    /// The characters of the text; none where it is missing.
    pub open spec fn source(&self) -> Seq<char> {
        match self.input {
            Some(t) => t@,
            None => Seq::empty(),
        }
    }

    /// The grid of the text.
    pub open spec fn grid(&self) -> Seq<Seq<Seq<char>>> {
        parsed(self.source(), self.ifs@)
    }

    /// The settings as the rules read them.
    pub open spec fn layout(&self) -> Layout {
        Layout {
            ofs: self.ofs@,
            header_index: self.header_index,
            header_count: self.header_count,
            column_width_limits_index: self.column_width_limits_index,
            format_string_index: self.format_string_index,
            no_divider: self.no_divider,
            divider_char: self.divider_char,
            max_cell_width: self.max_cell_width,
            frame: self.frame,
            no_ellipsis: self.no_ellipsis,
            use_thousand_separator: self.use_thousand_separator,
            thousand_separator: self.thousand_separator,
            decimal_separator: self.decimal_separator,
            alignment: self.alignment,
        }
    }

    /// A builder of `input`, cleaned of blank lines, with the default
    /// settings: fields separated by one space, one header row at the top,
    /// no row of limits, a divider of `-`, at most 80 columns for a cell,
    /// truncation with an ellipsis, automatic alignment.
    pub fn new(input: Option<String>) -> (r: Self)
        ensures
            r.input is Some <==> input is Some,
            input is Some ==> r.source() == cleaned(input->0@),
            input is Some ==> r.grid() == parsed(input->0@, " "@),
            r.ifs@ == " "@,
            r.ofs@ == " "@,
            r == TableBuilder::initial(r.input, r.ifs, r.ofs),
    {
        let cleaned_input = match input {
            Some(t) => {
                proof {
                    lemma_clean_idempotent(t@);
                }
                Some(to_text(&clean_chars(&to_chars(t.as_str()))))
            },
            None => None,
        };
        TableBuilder {
            input: cleaned_input,
            ifs: " ".to_owned(),
            ofs: " ".to_owned(),
            header_index: 1,
            header_count: 1,
            column_width_limits_index: 0,
            format_string_index: 0,
            no_divider: false,
            divider_char: '-',
            max_cell_width: DEFAULT_CELL_WIDTH,
            frame: Frame::TRUNCATE,
            no_ellipsis: false,
            pad_decimal_digits: false,
            max_decimal_digits: 2,
            decimal_separator: '.',
            use_thousand_separator: false,
            thousand_separator: ',',
            alignment: Alignment::AUTO,
        }
    }

    /// Sets the separator between the fields of a line of the text.
    pub fn set_ifs(&mut self, ifs: String) -> (ret: &mut Self)
        ensures
            *final(self) == *final(ret),
            *ret == (TableBuilder { ifs: ifs, ..*old(self) }),
    {
        self.ifs = ifs;
        self
    }

    /// Sets the separator between the cells of a row of the table.
    pub fn set_ofs(&mut self, ofs: String) -> (ret: &mut Self)
        ensures
            *final(self) == *final(ret),
            *ret == (TableBuilder { ofs: ofs, ..*old(self) }),
    {
        self.ofs = ofs;
        self
    }

    /// Sets the row with which the headers start. Where it is not zero
    /// there is at least one header row.
    pub fn set_header_index(&mut self, index: usize) -> (ret: &mut Self)
        ensures
            *final(self) == *final(ret),
            *ret == (TableBuilder {
                header_index: index,
                header_count: if index > 0 && old(self).header_count == 0 {
                    1
                } else {
                    old(self).header_count
                },
                ..*old(self)
            }),
    {
        self.header_index = index;
        if index > 0 && self.header_count == 0 {
            self.header_count = 1;
        }
        self
    }

    /// Sets the number of header rows, to one at least. Where the table
    /// has no headers nothing changes.
    pub fn set_header_count(&mut self, count: usize) -> (ret: &mut Self)
        ensures
            *final(self) == *final(ret),
            *ret == (TableBuilder {
                header_count: if old(self).header_index == 0 {
                    old(self).header_count
                } else if count == 0 {
                    1
                } else {
                    count
                },
                ..*old(self)
            }),
    {
        if self.header_index > 0 {
            self.header_count = if count == 0 {
                1
            } else {
                count
            };
        }
        self
    }

    /// Sets the row that holds the limits of the column widths.
    pub fn set_column_width_limits_index(&mut self, index: usize) -> (ret: &mut Self)
        ensures
            *final(self) == *final(ret),
            *ret == (TableBuilder { column_width_limits_index: index, ..*old(self) }),
    {
        self.column_width_limits_index = index;
        self
    }

    /// Sets the row that holds the templates of the columns.
    pub fn set_format_string_index(&mut self, index: usize) -> (ret: &mut Self)
        ensures
            *final(self) == *final(ret),
            *ret == (TableBuilder { format_string_index: index, ..*old(self) }),
    {
        self.format_string_index = index;
        self
    }

    /// Sets whether the divider is left out.
    pub fn set_no_divider(&mut self, no_divider: bool) -> (ret: &mut Self)
        ensures
            *final(self) == *final(ret),
            *ret == (TableBuilder { no_divider: no_divider, ..*old(self) }),
    {
        self.no_divider = no_divider;
        self
    }

    /// Sets the character that the divider is made of.
    pub fn set_divider_char(&mut self, divider_char: char) -> (ret: &mut Self)
        ensures
            *final(self) == *final(ret),
            *ret == (TableBuilder { divider_char: divider_char, ..*old(self) }),
    {
        self.divider_char = divider_char;
        self
    }

    /// Sets the limit of the width of a column that has none of its own.
    pub fn set_max_cell_width(&mut self, max_cell_width: usize) -> (ret: &mut Self)
        ensures
            *final(self) == *final(ret),
            *ret == (TableBuilder { max_cell_width: max_cell_width, ..*old(self) }),
    {
        self.max_cell_width = max_cell_width;
        self
    }

    /// Sets the frame.
    pub fn set_frame(&mut self, frame: Frame) -> (ret: &mut Self)
        ensures
            *final(self) == *final(ret),
            *ret == (TableBuilder { frame: frame, ..*old(self) }),
    {
        self.frame = frame;
        self
    }

    /// Sets whether a truncated text is left without the ellipsis.
    pub fn set_no_ellipsis(&mut self, no_ellipsis: bool) -> (ret: &mut Self)
        ensures
            *final(self) == *final(ret),
            *ret == (TableBuilder { no_ellipsis: no_ellipsis, ..*old(self) }),
    {
        self.no_ellipsis = no_ellipsis;
        self
    }

    /// Sets whether numbers are shown with a fixed number of decimal
    /// places.
    pub fn set_pad_decimal_digits(&mut self, pad_decimal_digits: bool) -> (ret: &mut Self)
        ensures
            *final(self) == *final(ret),
            *ret == (TableBuilder { pad_decimal_digits: pad_decimal_digits, ..*old(self) }),
    {
        self.pad_decimal_digits = pad_decimal_digits;
        self
    }

    /// Sets the number of decimal places.
    pub fn set_max_decimal_digits(&mut self, max_decimal_digits: usize) -> (ret: &mut Self)
        ensures
            *final(self) == *final(ret),
            *ret == (TableBuilder { max_decimal_digits: max_decimal_digits, ..*old(self) }),
    {
        self.max_decimal_digits = max_decimal_digits;
        self
    }

    /// Sets the decimal separator.
    pub fn set_decimal_separator(&mut self, decimal_separator: char) -> (ret: &mut Self)
        ensures
            *final(self) == *final(ret),
            *ret == (TableBuilder { decimal_separator: decimal_separator, ..*old(self) }),
    {
        self.decimal_separator = decimal_separator;
        self
    }

    /// Sets whether the digits of the whole part stand in groups of three.
    pub fn set_use_thousand_separator(&mut self, use_thousand_separator: bool) -> (ret: &mut Self)
        ensures
            *final(self) == *final(ret),
            *ret == (TableBuilder {
                use_thousand_separator: use_thousand_separator,
                ..*old(self)
            }),
    {
        self.use_thousand_separator = use_thousand_separator;
        self
    }

    /// Sets the thousands separator.
    pub fn set_thousand_separator(&mut self, thousand_separator: char) -> (ret: &mut Self)
        ensures
            *final(self) == *final(ret),
            *ret == (TableBuilder { thousand_separator: thousand_separator, ..*old(self) }),
    {
        self.thousand_separator = thousand_separator;
        self
    }

    /// Sets the alignment.
    pub fn set_alignment(&mut self, alignment: Alignment) -> (ret: &mut Self)
        ensures
            *final(self) == *final(ret),
            *ret == (TableBuilder { alignment: alignment, ..*old(self) }),
    {
        self.alignment = alignment;
        self
    }

    fn chars(&self) -> (r: Vec<char>)
        ensures
            r@ == self.source(),
    {
        match &self.input {
            Some(t) => to_chars(t.as_str()),
            None => Vec::new(),
        }
    }

    fn parsed_grid(&self) -> (g: Vec<Vec<Vec<char>>>)
        ensures
            grid_view(g@) == self.grid(),
    {
        parse_chars(&self.chars(), &to_chars(self.ifs.as_str()))
    }

    fn heads(&self, r: usize) -> (b: bool)
        ensures
            b == self.layout().is_header_row(r as int),
    {
        self.header_index > 0 && r >= self.header_index - 1 && r - (self.header_index - 1)
            < self.header_count
    }

    fn is_data(&self, r: usize) -> (b: bool)
        ensures
            b == self.layout().is_data_row(r as int),
    {
        !self.heads(r) && !self.limits_row(r) && !(self.format_string_index > 0 && r
            == self.format_string_index - 1)
    }

    fn template_of(&self, grid: &Vec<Vec<Vec<char>>>, c: usize) -> (t: Vec<char>)
        ensures
            t@ == self.layout().template(grid_view(grid@), c as int),
    {
        if self.format_string_index > 0 {
            let r = self.format_string_index - 1;
            if r < grid.len() && c < grid[r].len() {
                assert(grid_view(grid@)[r as int][c as int] == grid@[r as int]@[c as int]@);
                return slice(&grid[r][c], 0, grid[r][c].len());
            }
        }
        Vec::new()
    }

    fn limits_row(&self, r: usize) -> (b: bool)
        ensures
            b == self.layout().is_limit_row(r as int),
    {
        self.column_width_limits_index > 0 && r == self.column_width_limits_index - 1
    }

    fn side_of(&self, numeric: bool) -> (r: Alignment)
        ensures
            r == side(self.alignment, numeric),
    {
        match self.alignment {
            Alignment::AUTO => if numeric {
                Alignment::RIGHT
            } else {
                Alignment::LEFT
            },
            Alignment::LEFT => Alignment::LEFT,
            Alignment::RIGHT => Alignment::RIGHT,
            Alignment::CENTER => Alignment::CENTER,
        }
    }

    fn limits_of(&self, grid: &Vec<Vec<Vec<char>>>, n: usize) -> (limits: Vec<usize>)
        ensures
            limits.len() == n,
            forall|c: int| 0 <= c < n ==> limits@[c] == self.layout().limit(grid_view(grid@), c),
    {
        let ghost gv = grid_view(grid@);
        let mut limits: Vec<usize> = Vec::new();
        let mut c: usize = 0;
        while c < n
            invariant
                c <= n,
                limits.len() == c,
                gv == grid_view(grid@),
                forall|k: int| 0 <= k < c ==> limits@[k] == self.layout().limit(gv, k),
            decreases n - c,
        {
            let mut limit = self.max_cell_width;
            if self.column_width_limits_index > 0 {
                let r = self.column_width_limits_index - 1;
                if r < grid.len() && c < grid[r].len() {
                    assert(gv[r as int][c as int] == grid@[r as int]@[c as int]@);
                    match parse_usize(&grid[r][c]) {
                        Some(w) => {
                            if w > 0 {
                                limit = w;
                            }
                        },
                        None => {},
                    }
                }
            }
            limits.push(limit);
            c += 1;
        }
        limits
    }

    fn header_widths_of(&self, grid: &Vec<Vec<Vec<char>>>, limits: &Vec<usize>) -> (widths: Vec<
        usize,
    >)
        requires
            limits.len() == columns(grid_view(grid@)),
            forall|c: int|
                0 <= c < limits.len() ==> limits@[c] == self.layout().limit(grid_view(grid@), c),
        ensures
            widths.len() == limits.len(),
            forall|c: int|
                0 <= c < widths.len() ==> widths@[c] == self.layout().header_width(
                    grid_view(grid@),
                    c,
                    grid.len() as int,
                ),
    {
        let ghost gv = grid_view(grid@);
        let n = limits.len();
        let mut widths: Vec<usize> = Vec::new();
        let mut k: usize = 0;
        while k < n
            invariant
                k <= n,
                widths.len() == k,
                forall|c: int| 0 <= c < k ==> widths@[c] == 0,
            decreases n - k,
        {
            widths.push(0);
            k += 1;
        }
        let mut r: usize = 0;
        while r < grid.len()
            invariant
                r <= grid.len(),
                gv == grid_view(grid@),
                n == limits.len(),
                n == columns(gv),
                widths.len() == n,
                forall|c: int| 0 <= c < n ==> limits@[c] == self.layout().limit(gv, c),
                forall|c: int|
                    0 <= c < n ==> widths@[c] == self.layout().header_width(gv, c, r as int),
            decreases grid.len() - r,
        {
            proof {
                lemma_columns(gv, r as int);
            }
            if self.heads(r) {
                let row = &grid[r];
                let mut c: usize = 0;
                while c < row.len()
                    invariant
                        c <= row.len(),
                        row.len() <= n,
                        r < grid.len(),
                        row == &grid@[r as int],
                        self.layout().is_header_row(r as int),
                        gv == grid_view(grid@),
                        n == limits.len(),
                        widths.len() == n,
                        forall|k: int| 0 <= k < n ==> limits@[k] == self.layout().limit(gv, k),
                        forall|k: int|
                            0 <= k < c ==> widths@[k] == self.layout().header_width(gv, k, r + 1),
                        forall|k: int|
                            c <= k < n
                                ==> widths@[k] == self.layout().header_width(gv, k, r as int),
                    decreases row.len() - c,
                {
                    let mut w = width_of(&row[c]);
                    assert(cell(gv, r as int, c as int) == row@[c as int]@);
                    if w > limits[c] {
                        w = limits[c];
                    }
                    if w > widths[c] {
                        widths.set(c, w);
                    }
                    c += 1;
                }
                assert forall|k: int| 0 <= k < n implies widths@[k] == self.layout().header_width(
                    gv,
                    k,
                    r + 1,
                ) by {
                    if k >= row.len() {
                        assert(cell(gv, r as int, k) == Seq::<char>::empty());
                        assert(cells(Seq::<char>::empty()) == 0);
                    }
                }
            }
            r += 1;
        }
        widths
    }

    fn data_cell_chars(
        &self,
        grid: &Vec<Vec<Vec<char>>>,
        readings: &Vec<Vec<Option<String>>>,
        r: usize,
        c: usize,
    ) -> (found: (Vec<char>, bool))
        requires
            r < grid.len(),
            c < grid@[r as int].len(),
        ensures
            found.0@ == self.layout().data_cell(
                grid_view(grid@),
                readings_view(readings@),
                r as int,
                c as int,
            ),
            found.1 == (reading_at(grid_view(grid@), readings_view(readings@), r as int, c as int)
                is Some),
    {
        assert(grid_view(grid@)[r as int][c as int] == grid@[r as int]@[c as int]@);
        match reading_chars(readings, r, c) {
            Some(rendered) => (
                format_number(
                    &rendered,
                    self.use_thousand_separator,
                    self.thousand_separator,
                    self.decimal_separator,
                ),
                true,
            ),
            None => (crate::chars::slice(&grid[r][c], 0, grid[r][c].len()), false),
        }
    }

    fn data_widths_of(
        &self,
        grid: &Vec<Vec<Vec<char>>>,
        readings: &Vec<Vec<Option<String>>>,
        limits: &Vec<usize>,
    ) -> (widths: Vec<usize>)
        requires
            limits.len() == columns(grid_view(grid@)),
            forall|c: int|
                0 <= c < limits.len() ==> limits@[c] == self.layout().limit(grid_view(grid@), c),
        ensures
            widths.len() == limits.len(),
            forall|c: int|
                0 <= c < widths.len() ==> widths@[c] == self.layout().data_width(
                    grid_view(grid@),
                    readings_view(readings@),
                    c,
                    grid.len() as int,
                ),
    {
        let ghost gv = grid_view(grid@);
        let ghost rv = readings_view(readings@);
        let n = limits.len();
        let mut widths: Vec<usize> = Vec::new();
        let mut k: usize = 0;
        while k < n
            invariant
                k <= n,
                widths.len() == k,
                forall|c: int| 0 <= c < k ==> widths@[c] == 0,
            decreases n - k,
        {
            widths.push(0);
            k += 1;
        }
        let mut r: usize = 0;
        while r < grid.len()
            invariant
                r <= grid.len(),
                gv == grid_view(grid@),
                rv == readings_view(readings@),
                n == limits.len(),
                n == columns(gv),
                widths.len() == n,
                forall|c: int| 0 <= c < n ==> limits@[c] == self.layout().limit(gv, c),
                forall|c: int|
                    0 <= c < n ==> widths@[c] == self.layout().data_width(gv, rv, c, r as int),
            decreases grid.len() - r,
        {
            proof {
                lemma_columns(gv, r as int);
            }
            if self.is_data(r) {
                let len = grid[r].len();
                let mut c: usize = 0;
                while c < len
                    invariant
                        c <= len,
                        len <= n,
                        r < grid.len(),
                        len == grid@[r as int].len(),
                        self.layout().is_data_row(r as int),
                        gv == grid_view(grid@),
                        rv == readings_view(readings@),
                        n == limits.len(),
                        widths.len() == n,
                        forall|k: int| 0 <= k < n ==> limits@[k] == self.layout().limit(gv, k),
                        forall|k: int|
                            0 <= k < c ==> widths@[k] == self.layout().data_width(gv, rv, k, r + 1),
                        forall|k: int|
                            c <= k < n
                                ==> widths@[k] == self.layout().data_width(gv, rv, k, r as int),
                    decreases len - c,
                {
                    let shown = self.data_cell_chars(grid, readings, r, c);
                    let mut w = width_of(&shown.0);
                    if w > limits[c] {
                        w = limits[c];
                    }
                    if w > widths[c] {
                        widths.set(c, w);
                    }
                    c += 1;
                }
                assert forall|k: int| 0 <= k < n implies widths@[k] == self.layout().data_width(
                    gv,
                    rv,
                    k,
                    r + 1,
                ) by {
                    if k >= len {
                        assert(self.layout().data_cell(gv, rv, r as int, k)
                            == Seq::<char>::empty());
                        assert(cells(Seq::<char>::empty()) == 0);
                    }
                }
            }
            r += 1;
        }
        widths
    }

    fn numeric_of(
        &self,
        grid: &Vec<Vec<Vec<char>>>,
        readings: &Vec<Vec<Option<String>>>,
        n: usize,
    ) -> (flags: Vec<bool>)
        requires
            n == columns(grid_view(grid@)),
        ensures
            flags.len() == n,
            forall|c: int|
                0 <= c < n ==> flags@[c] == self.layout().numeric(
                    grid_view(grid@),
                    readings_view(readings@),
                    c,
                    grid.len() as int,
                ),
    {
        let ghost gv = grid_view(grid@);
        let ghost rv = readings_view(readings@);
        let mut flags: Vec<bool> = Vec::new();
        let mut k: usize = 0;
        while k < n
            invariant
                k <= n,
                flags.len() == k,
                forall|c: int| 0 <= c < k ==> flags@[c],
            decreases n - k,
        {
            flags.push(true);
            k += 1;
        }
        let mut r: usize = 0;
        while r < grid.len()
            invariant
                r <= grid.len(),
                gv == grid_view(grid@),
                rv == readings_view(readings@),
                n == columns(gv),
                flags.len() == n,
                forall|c: int|
                    0 <= c < n ==> flags@[c] == self.layout().numeric(gv, rv, c, r as int),
            decreases grid.len() - r,
        {
            proof {
                lemma_columns(gv, r as int);
            }
            if self.is_data(r) {
                let len = grid[r].len();
                let mut c: usize = 0;
                while c < len
                    invariant
                        c <= len,
                        len <= n,
                        r < grid.len(),
                        len == grid@[r as int].len(),
                        len == gv[r as int].len(),
                        self.layout().is_data_row(r as int),
                        gv == grid_view(grid@),
                        rv == readings_view(readings@),
                        flags.len() == n,
                        forall|k: int|
                            0 <= k < c ==> flags@[k] == self.layout().numeric(gv, rv, k, r + 1),
                        forall|k: int|
                            c <= k < n ==> flags@[k] == self.layout().numeric(gv, rv, k, r as int),
                    decreases len - c,
                {
                    let is_number = reading_chars(readings, r, c).is_some();
                    assert(is_number == (reading_at(gv, rv, r as int, c as int) is Some));
                    if !is_number {
                        flags.set(c, false);
                    }
                    c += 1;
                }
            }
            r += 1;
        }
        flags
    }

    fn widths_of(
        &self,
        grid: &Vec<Vec<Vec<char>>>,
        readings: &Vec<Vec<Option<String>>>,
        limits: &Vec<usize>,
    ) -> (widths: Vec<usize>)
        requires
            limits.len() == columns(grid_view(grid@)),
            forall|c: int|
                0 <= c < limits.len() ==> limits@[c] == self.layout().limit(grid_view(grid@), c),
        ensures
            widths.len() == limits.len(),
            forall|c: int|
                0 <= c < widths.len() ==> widths@[c] == self.layout().column_width(
                    grid_view(grid@),
                    readings_view(readings@),
                    c,
                ),
    {
        let data = self.data_widths_of(grid, readings, limits);
        match self.frame {
            Frame::WRAP => data,
            _ => {
                let head = self.header_widths_of(grid, limits);
                let mut widths: Vec<usize> = Vec::new();
                let mut c: usize = 0;
                while c < data.len()
                    invariant
                        c <= data.len(),
                        head.len() == data.len(),
                        widths.len() == c,
                        forall|k: int|
                            0 <= k < c ==> widths@[k] == wider(head@[k] as nat, data@[k] as nat),
                    decreases data.len() - c,
                {
                    widths.push(
                        if head[c] > data[c] {
                            head[c]
                        } else {
                            data[c]
                        },
                    );
                    c += 1;
                }
                widths
            },
        }
    }

    fn cell_lines_of(
        &self,
        grid: &Vec<Vec<Vec<char>>>,
        readings: &Vec<Vec<Option<String>>>,
        widths: &Vec<usize>,
        r: usize,
        c: usize,
    ) -> (lines: Vec<Vec<char>>)
        requires
            r < grid.len(),
            c < widths.len(),
        ensures
            views(lines@) == self.layout().cell_lines(
                grid_view(grid@),
                readings_view(readings@),
                widths@,
                r as int,
                c as int,
            ),
    {
        let ghost gv = grid_view(grid@);
        let ghost rv = readings_view(readings@);
        if c < grid[r].len() {
            assert(gv[r as int][c as int] == grid@[r as int]@[c as int]@);
            if !self.heads(r) {
                let shown = self.data_cell_chars(grid, readings, r, c);
                if shown.1 {
                    let mut lines: Vec<Vec<char>> = Vec::new();
                    lines.push(shown.0);
                    assert(views(lines@)
                        =~= seq![self.layout().data_cell(gv, rv, r as int, c as int)]);
                    return lines;
                }
            }
            fit_cell(&grid[r][c], self.frame, widths[c], !self.no_ellipsis)
        } else {
            let none: Vec<char> = Vec::new();
            assert(none@ =~= cell(gv, r as int, c as int));
            fit_cell(&none, self.frame, widths[c], !self.no_ellipsis)
        }
    }

    fn row_lines_of(
        &self,
        grid: &Vec<Vec<Vec<char>>>,
        readings: &Vec<Vec<Option<String>>>,
        widths: &Vec<usize>,
        flags: &Vec<bool>,
        ofs: &Vec<char>,
        r: usize,
    ) -> (lines: Vec<Vec<char>>)
        requires
            r < grid.len(),
            flags.len() == widths.len(),
            ofs@ == self.ofs@,
        ensures
            views(lines@) == self.layout().row_lines(
                grid_view(grid@),
                readings_view(readings@),
                widths@,
                flags@,
                r as int,
            ),
    {
        let ghost gv = grid_view(grid@);
        let ghost rv = readings_view(readings@);
        let n = widths.len();
        let mut cell_lines: Vec<Vec<Vec<char>>> = Vec::new();
        let mut height: usize = 1;
        let mut c: usize = 0;
        while c < n
            invariant
                c <= n,
                n == widths.len(),
                r < grid.len(),
                gv == grid_view(grid@),
                rv == readings_view(readings@),
                cell_lines.len() == c,
                forall|k: int|
                    0 <= k < c ==> views(cell_lines@[k]@) == self.layout().cell_lines(
                        gv,
                        rv,
                        widths@,
                        r as int,
                        k,
                    ),
                height == self.layout().row_height(gv, rv, widths@, r as int, c as int),
            decreases n - c,
        {
            let one = self.cell_lines_of(grid, readings, widths, r, c);
            if one.len() > height {
                height = one.len();
            }
            cell_lines.push(one);
            c += 1;
        }
        let mut lines: Vec<Vec<char>> = Vec::new();
        let mut k: usize = 0;
        while k < height
            invariant
                k <= height,
                n == widths.len(),
                flags.len() == n,
                ofs@ == self.ofs@,
                gv == grid_view(grid@),
                cell_lines.len() == n,
                forall|j: int|
                    0 <= j < n ==> views(cell_lines@[j]@) == self.layout().cell_lines(
                        gv,
                        rv,
                        widths@,
                        r as int,
                        j,
                    ),
                lines.len() == k,
                forall|j: int|
                    0 <= j < k
                        ==> lines@[j]@ == self.layout().row_line(
                        gv,
                        rv,
                        widths@,
                        flags@,
                        r as int,
                        j,
                    ),
            decreases height - k,
        {
            let mut parts: Vec<Vec<char>> = Vec::new();
            let mut c: usize = 0;
            while c < n
                invariant
                    c <= n,
                    n == widths.len(),
                    flags.len() == n,
                    cell_lines.len() == n,
                    forall|j: int|
                        0 <= j < n ==> views(cell_lines@[j]@) == self.layout().cell_lines(
                            gv,
                            rv,
                            widths@,
                            r as int,
                            j,
                        ),
                    gv == grid_view(grid@),
                    parts.len() == c,
                    forall|j: int|
                        0 <= j < c ==> parts@[j]@ == self.layout().piece(
                            gv,
                            rv,
                            widths@,
                            flags@,
                            r as int,
                            j,
                            k as int,
                        ),
                decreases n - c,
            {
                let ghost cl = self.layout().cell_lines(gv, rv, widths@, r as int, c as int);
                assert(views(cell_lines@[c as int]@) == cl);
                let line = if k < cell_lines[c].len() {
                    assert(views(cell_lines@[c as int]@)[k as int]
                        == cell_lines@[c as int]@[k as int]@);
                    slice(&cell_lines[c][k], 0, cell_lines[c][k].len())
                } else {
                    Vec::new()
                };
                assert(line@ =~= line_at(cl, k as int));
                let template = self.template_of(grid, c);
                let part = if template.len() > 0 {
                    fill(&template, &line)
                } else {
                    place(&line, self.side_of(flags[c]), widths[c])
                };
                parts.push(part);
                c += 1;
            }
            assert(views(parts@) =~= Seq::new(
                widths@.len(),
                |c: int| self.layout().piece(gv, rv, widths@, flags@, r as int, c, k as int),
            ));
            lines.push(join(&parts, ofs));
            k += 1;
        }
        assert(views(lines@) =~= self.layout().row_lines(gv, rv, widths@, flags@, r as int));
        lines
    }

    fn block_of(
        &self,
        out: &mut Vec<Vec<char>>,
        grid: &Vec<Vec<Vec<char>>>,
        readings: &Vec<Vec<Option<String>>>,
        widths: &Vec<usize>,
        flags: &Vec<bool>,
        ofs: &Vec<char>,
        headers: bool,
    )
        requires
            flags.len() == widths.len(),
            ofs@ == self.ofs@,
        ensures
            views(final(out)@) == views(old(out)@) + self.layout().block(
                grid_view(grid@),
                readings_view(readings@),
                widths@,
                flags@,
                headers,
                grid.len() as int,
            ),
    {
        let ghost gv = grid_view(grid@);
        let ghost rv = readings_view(readings@);
        let ghost start = views(out@);
        let mut r: usize = 0;
        assert(views(out@) =~= start + self.layout().block(gv, rv, widths@, flags@, headers, 0));
        while r < grid.len()
            invariant
                r <= grid.len(),
                flags.len() == widths.len(),
                ofs@ == self.ofs@,
                gv == grid_view(grid@),
                rv == readings_view(readings@),
                views(out@)
                    == start + self.layout().block(gv, rv, widths@, flags@, headers, r as int),
            decreases grid.len() - r,
        {
            let wanted = if headers {
                self.heads(r)
            } else {
                self.is_data(r)
            };
            if wanted {
                let lines = self.row_lines_of(grid, readings, widths, flags, ofs, r);
                let ghost before = views(out@);
                let mut k: usize = 0;
                while k < lines.len()
                    invariant
                        k <= lines.len(),
                        views(out@) == before + views(lines@).take(k as int),
                    decreases lines.len() - k,
                {
                    let ghost prev = views(out@);
                    out.push(slice(&lines[k], 0, lines[k].len()));
                    assert(lines@[k as int]@.subrange(0, lines@[k as int]@.len() as int)
                        =~= lines@[k as int]@);
                    assert(views(out@) =~= prev.push(lines@[k as int]@));
                    assert(views(out@) =~= before + views(lines@).take(k + 1));
                    k += 1;
                }
                assert(views(lines@).take(lines.len() as int) =~= views(lines@));
                assert(views(out@)
                    =~= start + self.layout().block(gv, rv, widths@, flags@, headers, r + 1));
            }
            r += 1;
        }
    }

    fn divider_of(&self, widths: &Vec<usize>, ofs: &Vec<char>) -> (line: Vec<char>)
        requires
            ofs@ == self.ofs@,
        ensures
            line@ == self.layout().divider(widths@),
    {
        let mut parts: Vec<Vec<char>> = Vec::new();
        let mut c: usize = 0;
        while c < widths.len()
            invariant
                c <= widths.len(),
                parts.len() == c,
                forall|j: int|
                    0 <= j < c ==> parts@[j]@ == repeated(self.divider_char, widths@[j] as nat),
            decreases widths.len() - c,
        {
            let mut part: Vec<char> = Vec::new();
            extend_repeated(&mut part, self.divider_char, widths[c]);
            assert(part@ =~= repeated(self.divider_char, widths@[c as int] as nat));
            parts.push(part);
            c += 1;
        }
        assert(views(parts@) =~= Seq::new(
            widths@.len(),
            |c: int| repeated(self.divider_char, widths@[c] as nat),
        ));
        join(&parts, ofs)
    }

    /// The number of columns: the number of fields of the longest row.
    pub fn column_count(&self) -> (n: usize)
        ensures
            n == columns(self.grid()),
    {
        count_columns(&self.parsed_grid())
    }

    /// The limits of the column widths, one for each column.
    pub fn column_width_limits(&self) -> (limits: Vec<usize>)
        ensures
            limits.len() == columns(self.grid()),
            forall|c: int|
                0 <= c < limits.len() ==> limits@[c] == self.layout().limit(self.grid(), c),
    {
        let grid = self.parsed_grid();
        let n = count_columns(&grid);
        self.limits_of(&grid, n)
    }

    /// The header rows, in order, as they stand in the text.
    pub fn headers(&self) -> (rows: Vec<Vec<String>>)
        ensures
            rows_view(rows@) == self.layout().header_rows(self.grid(), self.grid().len() as int),
    {
        let grid = self.parsed_grid();
        let ghost gv = grid_view(grid@);
        let mut rows: Vec<Vec<String>> = Vec::new();
        let mut r: usize = 0;
        while r < grid.len()
            invariant
                r <= grid.len(),
                gv == grid_view(grid@),
                rows_view(rows@) == self.layout().header_rows(gv, r as int),
            decreases grid.len() - r,
        {
            if self.heads(r) {
                let ghost before = rows_view(rows@);
                let row = to_texts(&grid[r]);
                rows.push(row);
                assert(rows_view(rows@) =~= before.push(gv[r as int]));
            }
            r += 1;
        }
        rows
    }

    /// The text to read as a number for each field of the grid, row by
    /// row: the field without thousands separators and with `.` as the
    /// decimal point.
    pub fn cells_to_read(&self) -> (rows: Vec<Vec<String>>)
        ensures
            rows_view(rows@) == Seq::new(
                self.grid().len(),
                |r: int|
                    Seq::new(
                        self.grid()[r].len(),
                        |c: int|
                            normalized(
                                self.grid()[r][c],
                                self.thousand_separator,
                                self.decimal_separator,
                            ),
                    ),
            ),
    {
        let grid = self.parsed_grid();
        let ghost gv = grid_view(grid@);
        let mut rows: Vec<Vec<String>> = Vec::new();
        let mut r: usize = 0;
        while r < grid.len()
            invariant
                r <= grid.len(),
                gv == grid_view(grid@),
                rows.len() == r,
                forall|k: int|
                    0 <= k < r ==> texts(rows@[k]@) == Seq::new(
                        gv[k].len(),
                        |c: int|
                            normalized(gv[k][c], self.thousand_separator, self.decimal_separator),
                    ),
            decreases grid.len() - r,
        {
            let mut row: Vec<String> = Vec::new();
            let mut c: usize = 0;
            while c < grid[r].len()
                invariant
                    c <= grid@[r as int].len(),
                    r < grid.len(),
                    gv == grid_view(grid@),
                    row.len() == c,
                    forall|k: int|
                        0 <= k < c ==> row@[k]@ == normalized(
                            gv[r as int][k],
                            self.thousand_separator,
                            self.decimal_separator,
                        ),
                decreases grid@[r as int].len() - c,
            {
                assert(gv[r as int][c as int] == grid@[r as int]@[c as int]@);
                row.push(
                    to_text(
                        &normalize(&grid[r][c], self.thousand_separator, self.decimal_separator),
                    ),
                );
                c += 1;
            }
            assert(texts(row@) =~= Seq::new(
                gv[r as int].len(),
                |c: int|
                    normalized(gv[r as int][c], self.thousand_separator, self.decimal_separator),
            ));
            rows.push(row);
            r += 1;
        }
        assert(rows_view(rows@) =~= Seq::new(
            gv.len(),
            |r: int|
                Seq::new(
                    gv[r].len(),
                    |c: int| normalized(gv[r][c], self.thousand_separator, self.decimal_separator),
                ),
        ));
        rows
    }

    /// The data rows, in order: neither headers nor the row of limits. A
    /// cell that is a number stands as numbers are shown, any other as it
    /// stands in the text.
    pub fn data(&self, readings: &Vec<Vec<Option<String>>>) -> (rows: Vec<Vec<String>>)
        ensures
            rows_view(rows@) == self.layout().data_rows(
                self.grid(),
                readings_view(readings@),
                self.grid().len() as int,
            ),
    {
        let grid = self.parsed_grid();
        let ghost gv = grid_view(grid@);
        let ghost rv = readings_view(readings@);
        let mut rows: Vec<Vec<String>> = Vec::new();
        let mut r: usize = 0;
        while r < grid.len()
            invariant
                r <= grid.len(),
                gv == grid_view(grid@),
                rv == readings_view(readings@),
                rows_view(rows@) == self.layout().data_rows(gv, rv, r as int),
            decreases grid.len() - r,
        {
            if self.is_data(r) {
                let mut row: Vec<String> = Vec::new();
                let mut c: usize = 0;
                while c < grid[r].len()
                    invariant
                        c <= grid@[r as int].len(),
                        r < grid.len(),
                        gv == grid_view(grid@),
                        rv == readings_view(readings@),
                        row.len() == c,
                        forall|k: int|
                            0 <= k < c ==> row@[k]@ == self.layout().data_cell(gv, rv, r as int, k),
                    decreases grid@[r as int].len() - c,
                {
                    let shown = self.data_cell_chars(&grid, readings, r, c);
                    row.push(to_text(&shown.0));
                    c += 1;
                }
                let ghost before = rows_view(rows@);
                assert(texts(row@) =~= Seq::new(
                    gv[r as int].len(),
                    |c: int| self.layout().data_cell(gv, rv, r as int, c),
                ));
                rows.push(row);
                assert(rows_view(rows@) =~= before.push(
                    Seq::new(
                        gv[r as int].len(),
                        |c: int| self.layout().data_cell(gv, rv, r as int, c),
                    ),
                ));
            }
            r += 1;
        }
        rows
    }

    /// For each column, whether it is numeric: whether every data cell
    /// that it has is a number. A column without data cells is numeric.
    pub fn numeric_columns(&self, readings: &Vec<Vec<Option<String>>>) -> (flags: Vec<bool>)
        ensures
            flags.len() == columns(self.grid()),
            forall|c: int|
                0 <= c < flags.len() ==> flags@[c] == self.layout().numeric(
                    self.grid(),
                    readings_view(readings@),
                    c,
                    self.grid().len() as int,
                ),
    {
        let grid = self.parsed_grid();
        let n = count_columns(&grid);
        self.numeric_of(&grid, readings, n)
    }

    /// For each column, the width of its headers.
    pub fn header_column_widths(&self) -> (widths: Vec<usize>)
        ensures
            widths.len() == columns(self.grid()),
            forall|c: int|
                0 <= c < widths.len() ==> widths@[c] == self.layout().header_width(
                    self.grid(),
                    c,
                    self.grid().len() as int,
                ),
    {
        let grid = self.parsed_grid();
        let n = count_columns(&grid);
        let limits = self.limits_of(&grid, n);
        self.header_widths_of(&grid, &limits)
    }

    /// For each column, the width of its data.
    pub fn data_column_widths(&self, readings: &Vec<Vec<Option<String>>>) -> (widths: Vec<usize>)
        ensures
            widths.len() == columns(self.grid()),
            forall|c: int|
                0 <= c < widths.len() ==> widths@[c] == self.layout().data_width(
                    self.grid(),
                    readings_view(readings@),
                    c,
                    self.grid().len() as int,
                ),
    {
        let grid = self.parsed_grid();
        let n = count_columns(&grid);
        let limits = self.limits_of(&grid, n);
        self.data_widths_of(&grid, readings, &limits)
    }

    /// For each column, its width; none is wider than the limit of its
    /// column.
    pub fn column_widths(&self, readings: &Vec<Vec<Option<String>>>) -> (widths: Vec<usize>)
        ensures
            widths.len() == columns(self.grid()),
            forall|c: int|
                0 <= c < widths.len() ==> widths@[c] == self.layout().column_width(
                    self.grid(),
                    readings_view(readings@),
                    c,
                ),
            forall|c: int|
                0 <= c < widths.len() ==> widths@[c] <= self.layout().limit(self.grid(), c),
    {
        let grid = self.parsed_grid();
        let n = count_columns(&grid);
        let limits = self.limits_of(&grid, n);
        let widths = self.widths_of(&grid, readings, &limits);
        proof {
            assert forall|c: int| 0 <= c < widths.len() implies widths@[c]
                <= self.layout().limit(self.grid(), c) by {
                self.layout().lemma_column_width_within_limit(
                    self.grid(),
                    readings_view(readings@),
                    c,
                );
            }
        }
        widths
    }

    /// The table: each header row, the divider unless it is left out, and
    /// each data row. The cells of a row are padded to the widths of their
    /// columns and joined by the output separator; a row whose cells were
    /// wrapped takes several lines. The result has no trailing whitespace.
    pub fn build(&self, readings: &Vec<Vec<Option<String>>>) -> (r: String)
        ensures
            r@ == self.layout().table(self.grid(), readings_view(readings@)),
    {
        let grid = self.parsed_grid();
        let n = count_columns(&grid);
        let limits = self.limits_of(&grid, n);
        let widths = self.widths_of(&grid, readings, &limits);
        let flags = self.numeric_of(&grid, readings, n);
        let ofs = to_chars(self.ofs.as_str());
        let ghost gv = self.grid();
        let ghost rv = readings_view(readings@);
        assert(widths@
            =~= Seq::new(n as nat, |c: int| self.layout().column_width(gv, rv, c) as usize)) by {
            assert forall|c: int| 0 <= c < n implies widths@[c]
                == self.layout().column_width(gv, rv, c)
                as usize by {
                assert(widths@[c] == self.layout().column_width(gv, rv, c));
            }
        }
        assert(flags@
            =~= Seq::new(n as nat, |c: int| self.layout().numeric(gv, rv, c, gv.len() as int)));
        let mut lines: Vec<Vec<char>> = Vec::new();
        assert(views(lines@) =~= Seq::<Seq<char>>::empty());
        self.block_of(&mut lines, &grid, readings, &widths, &flags, &ofs, true);
        if !self.no_divider {
            let ghost before = views(lines@);
            lines.push(self.divider_of(&widths, &ofs));
            assert(views(lines@) =~= before + seq![self.layout().divider(widths@)]);
        }
        self.block_of(&mut lines, &grid, readings, &widths, &flags, &ofs, false);
        let mut feed: Vec<char> = Vec::new();
        feed.push('\n');
        assert(feed@ =~= nl());
        let whole = join(&lines, &feed);
        assert(views(lines@)
            =~= self.layout().block(gv, rv, widths@, flags@, true, gv.len() as int) + (
        if self.no_divider {
            Seq::<Seq<char>>::empty()
        } else {
            seq![self.layout().divider(widths@)]
        }) + self.layout().block(gv, rv, widths@, flags@, false, gv.len() as int));
        to_text(&trim_end(&whole))
    }
}

} // verus!
