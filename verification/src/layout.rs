//! The rules of the table: which rows are headers, limits, templates and
//! data, how wide the columns are, which columns are numeric, and what the
//! rendered table is, all as functions of the grid, the readings and the
//! settings.
use crate::chars::{join, joined, repeated, slice, split, split_fields, trimmed_end, views};
use crate::frame::{lemma_truncated_fits, nl, truncate_chars, truncated, wrap_chars, wrapped};
use crate::grid::{cell, columns, reading_at};
use crate::number::{number_text, usize_value};
use crate::text::{Alignment, Frame};
use crate::width::{
    align_center, align_left, align_right, cells, cells_of, centered, left_aligned,
    lemma_cells_aligned, lemma_cells_joined, lemma_cells_repeated, right_aligned, total_cells,
};
use vstd::prelude::*;

verus! {

/// A width counted up to a limit only: the smaller of the two.
pub open spec fn clamped(width: nat, limit: usize) -> nat {
    if width > limit {
        limit as nat
    } else {
        width
    }
}

/// The greater of two widths.
pub open spec fn wider(a: nat, b: nat) -> nat {
    if a > b {
        a
    } else {
        b
    }
}

/// The side on which the cells of a column stand: under `AUTO` the right
/// for a numeric column and the left for any other; else as the alignment
/// says.
pub open spec fn side(alignment: Alignment, numeric: bool) -> Alignment {
    match alignment {
        Alignment::AUTO => if numeric {
            Alignment::RIGHT
        } else {
            Alignment::LEFT
        },
        other => other,
    }
}

/// A line of a cell padded to the width of its column, on the given side.
pub open spec fn placed(s: Seq<char>, side: Alignment, width: nat) -> Seq<char> {
    match side {
        Alignment::RIGHT => right_aligned(s, width),
        Alignment::CENTER => centered(s, width),
        _ => left_aligned(s, width),
    }
}

/// The lines of a text fitted into `width` columns by the rule of the
/// frame: the truncated text, the lines of the wrapped text, or the text
/// as it is.
pub open spec fn fitted(
    s: Seq<char>,
    frame: Frame,
    width: usize,
    use_ellipsis: bool,
) -> Seq<Seq<char>> {
    match frame {
        Frame::TRUNCATE => seq![truncated(s, width as nat, use_ellipsis)],
        Frame::WRAP => wrapped(s, width),
        Frame::NONE => seq![s],
    }
}

/// Line `k` of a cell; empty where the cell has fewer lines.
pub open spec fn line_at(lines: Seq<Seq<char>>, k: int) -> Seq<char> {
    if 0 <= k < lines.len() {
        lines[k]
    } else {
        Seq::empty()
    }
}

/// The lines of a text fitted into `width` columns by the rule of the
/// frame. A truncated text is no wider than `width`.
pub fn fit_cell(
    v: &Vec<char>,
    frame: Frame,
    width: usize,
    use_ellipsis: bool,
) -> (r: Vec<Vec<char>>)
    ensures
        views(r@) == fitted(v@, frame, width, use_ellipsis),
        frame == Frame::TRUNCATE ==> r.len() == 1 && cells(r@[0]@) <= width,
{
    if frame == Frame::NONE {
        let mut r: Vec<Vec<char>> = Vec::new();
        r.push(slice(v, 0, v.len()));
        assert(v@.subrange(0, v@.len() as int) =~= v@);
        assert(views(r@) =~= fitted(v@, frame, width, use_ellipsis));
        r
    } else if frame == Frame::WRAP {
        wrap_chars(v, width)
    } else {
        let mut r: Vec<Vec<char>> = Vec::new();
        r.push(truncate_chars(v, width, use_ellipsis));
        assert(views(r@) =~= fitted(v@, frame, width, use_ellipsis));
        r
    }
}

/// A line of a cell padded to `width` columns on the given side. The
/// result is as wide as the column unless the line is wider.
pub fn place(v: &Vec<char>, side: Alignment, width: usize) -> (r: Vec<char>)
    ensures
        r@ == placed(v@, side, width as nat),
        cells(r@) == if cells(v@) < width {
            width as nat
        } else {
            cells(v@)
        },
{
    match side {
        Alignment::RIGHT => align_right(v, width),
        Alignment::CENTER => align_center(v, width),
        _ => align_left(v, width),
    }
}

/// The widths of the columns, added up.
pub open spec fn sum_widths(widths: Seq<usize>) -> nat
    decreases widths.len(),
{
    if widths.len() == 0 {
        0
    } else {
        sum_widths(widths.drop_last()) + widths.last() as nat
    }
}

/// The width of a line that fills its columns: that of the columns and of
/// the separators between them together.
pub open spec fn full_width(widths: Seq<usize>, ofs: Seq<char>) -> nat {
    if widths.len() == 0 {
        0
    } else {
        (sum_widths(widths) + (widths.len() - 1) * cells(ofs)) as nat
    }
}

/// Texts of which each is as wide as its column are together as wide as
/// the columns.
proof fn lemma_total_is_sum(parts: Seq<Seq<char>>, widths: Seq<usize>)
    requires
        parts.len() == widths.len(),
        forall|c: int| 0 <= c < parts.len() ==> cells(#[trigger] parts[c]) == widths[c],
    ensures
        total_cells(parts) == sum_widths(widths),
    decreases parts.len(),
{
    if parts.len() > 0 {
        let p = parts.drop_last();
        let w = widths.drop_last();
        assert forall|c: int| 0 <= c < p.len() implies cells(#[trigger] p[c]) == w[c] by {
            assert(p[c] == parts[c]);
        }
        lemma_total_is_sum(p, w);
        assert(cells(parts.last()) == cells(parts[parts.len() - 1]));
    }
}

/// Texts of which none is wider than its column are together no wider
/// than the columns.
proof fn lemma_total_at_most_sum(parts: Seq<Seq<char>>, widths: Seq<usize>)
    requires
        parts.len() == widths.len(),
        forall|c: int| 0 <= c < parts.len() ==> cells(#[trigger] parts[c]) <= widths[c],
    ensures
        total_cells(parts) <= sum_widths(widths),
    decreases parts.len(),
{
    if parts.len() > 0 {
        let p = parts.drop_last();
        let w = widths.drop_last();
        assert forall|c: int| 0 <= c < p.len() implies cells(#[trigger] p[c]) <= w[c] by {
            assert(p[c] == parts[c]);
        }
        lemma_total_at_most_sum(p, w);
        assert(cells(parts.last()) == cells(parts[parts.len() - 1]));
    }
}

/// The mark in a template that stands for the cell.
pub open spec fn placeholder() -> Seq<char> {
    seq!['{', '}']
}

/// A template with `content` in place of each placeholder.
pub open spec fn filled(template: Seq<char>, content: Seq<char>) -> Seq<char> {
    joined(split_fields(template, placeholder()), content)
}

/// A template with `content` in place of each placeholder `{}`.
pub fn fill(template: &Vec<char>, content: &Vec<char>) -> (r: Vec<char>)
    ensures
        r@ == filled(template@, content@),
{
    let mut mark: Vec<char> = Vec::new();
    mark.push('{');
    mark.push('}');
    assert(mark@ =~= placeholder());
    join(&split(template, &mark), content)
}

/// The settings of a table as the rules of this module read them.
pub struct Layout {
    /// The separator between the cells of a row of the table.
    pub ofs: Seq<char>,
    /// The row with which the headers start, counted from one among the
    /// lines of the text that are not blank; zero where the table has no
    /// headers.
    pub header_index: usize,
    /// The number of header rows.
    pub header_count: usize,
    /// The row, counted in the same way, that holds the limits of the
    /// column widths; zero where there is none.
    pub column_width_limits_index: usize,
    /// The row, counted in the same way, that holds a template for each
    /// column; zero where there is none.
    pub format_string_index: usize,
    /// Whether the divider between headers and data is left out.
    pub no_divider: bool,
    /// The character that the divider is made of.
    pub divider_char: char,
    /// The limit of the width of a column that has none of its own.
    pub max_cell_width: usize,
    /// How a text that is too wide for its column is made to fit.
    pub frame: Frame,
    /// Whether a truncated text is left without the ellipsis.
    pub no_ellipsis: bool,
    /// Whether the digits of the whole part stand in groups of three.
    pub use_thousand_separator: bool,
    /// The character between those groups.
    pub thousand_separator: char,
    /// The character that separates the whole part from the fraction.
    pub decimal_separator: char,
    /// On which side of its column a cell stands.
    pub alignment: Alignment,
}

impl Layout {
    /// Whether row `r`, counted from zero, is a header row: there are
    /// `header_count` of them, from row `header_index - 1` on.
    pub open spec fn is_header_row(&self, r: int) -> bool {
        self.header_index > 0 && self.header_index - 1 <= r < self.header_index - 1
            + self.header_count
    }

    /// Whether row `r`, counted from zero, holds the limits of the column
    /// widths. A header row may hold them: it is then shown as a header
    /// and read for the limits as well.
    pub open spec fn is_limit_row(&self, r: int) -> bool {
        self.column_width_limits_index > 0 && r == self.column_width_limits_index - 1
    }

    /// Whether row `r`, counted from zero, holds the templates of the
    /// columns. A header row may hold them, as it may hold the limits.
    pub open spec fn is_format_row(&self, r: int) -> bool {
        self.format_string_index > 0 && r == self.format_string_index - 1
    }

    /// Whether row `r` is a data row: neither a header row, nor the row of
    /// limits, nor the row of templates.
    pub open spec fn is_data_row(&self, r: int) -> bool {
        !self.is_header_row(r) && !self.is_limit_row(r) && !self.is_format_row(r)
    }

    /// The template of column `c`: the field that the row of templates
    /// holds for it; empty where there is none. A cell of a column with a
    /// template is shown as the template with the cell in place of each
    /// `{}`, and is not padded.
    pub open spec fn template(&self, grid: Seq<Seq<Seq<char>>>, c: int) -> Seq<char> {
        cell(grid, self.format_string_index - 1, c)
    }

    /// Line `k` of the cell of row `r` in column `c` as it stands in the
    /// table: padded to the width of the column on the side of the column,
    /// or set into the template of the column.
    pub open spec fn piece(
        &self,
        grid: Seq<Seq<Seq<char>>>,
        readings: Seq<Seq<Option<Seq<char>>>>,
        widths: Seq<usize>,
        flags: Seq<bool>,
        r: int,
        c: int,
        k: int,
    ) -> Seq<char> {
        let line = line_at(self.cell_lines(grid, readings, widths, r, c), k);
        if self.template(grid, c).len() > 0 {
            filled(self.template(grid, c), line)
        } else {
            placed(line, side(self.alignment, flags[c]), widths[c] as nat)
        }
    }


    /// The header rows among the rows before `n`, in order.
    pub open spec fn header_rows(&self, grid: Seq<Seq<Seq<char>>>, n: int) -> Seq<Seq<Seq<char>>>
        decreases n,
    {
        if n <= 0 {
            Seq::empty()
        } else if n <= grid.len() && self.is_header_row(n - 1) {
            self.header_rows(grid, n - 1).push(grid[n - 1])
        } else {
            self.header_rows(grid, n - 1)
        }
    }

    /// The limit of the width of column `c`: the number that the row of
    /// limits holds for it, or `max_cell_width` where there is no such
    /// row, where the row has no field for the column, or where the field
    /// is no number or is zero.
    pub open spec fn limit(&self, grid: Seq<Seq<Seq<char>>>, c: int) -> usize {
        let r = self.column_width_limits_index - 1;
        if 0 <= r < grid.len() && 0 <= c < grid[r].len() {
            match usize_value(grid[r][c]) {
                Some(n) => if n > 0 {
                    n
                } else {
                    self.max_cell_width
                },
                None => self.max_cell_width,
            }
        } else {
            self.max_cell_width
        }
    }

    /// The data cell of row `r` in column `c` in its final form: a number
    /// as numbers are shown, any other field as it stands.
    pub open spec fn data_cell(
        &self,
        grid: Seq<Seq<Seq<char>>>,
        readings: Seq<Seq<Option<Seq<char>>>>,
        r: int,
        c: int,
    ) -> Seq<char> {
        match reading_at(grid, readings, r, c) {
            Some(rendered) => number_text(
                rendered,
                self.use_thousand_separator,
                self.thousand_separator,
                self.decimal_separator,
            ),
            None => cell(grid, r, c),
        }
    }

    /// The data rows among the rows before `n`, in order, each cell in its
    /// final form.
    pub open spec fn data_rows(
        &self,
        grid: Seq<Seq<Seq<char>>>,
        readings: Seq<Seq<Option<Seq<char>>>>,
        n: int,
    ) -> Seq<Seq<Seq<char>>>
        decreases n,
    {
        if n <= 0 {
            Seq::empty()
        } else if n <= grid.len() && self.is_data_row(n - 1) {
            self.data_rows(grid, readings, n - 1).push(
                Seq::new(
                    grid[n - 1].len(),
                    |c: int| self.data_cell(grid, readings, n - 1, c),
                ),
            )
        } else {
            self.data_rows(grid, readings, n - 1)
        }
    }

    /// The width of the headers of column `c` in the rows before `n`: that
    /// of the widest header cell, each counted up to the limit of the
    /// column only.
    pub open spec fn header_width(&self, grid: Seq<Seq<Seq<char>>>, c: int, n: int) -> nat
        decreases n,
    {
        if n <= 0 {
            0
        } else {
            let before = self.header_width(grid, c, n - 1);
            let w = clamped(cells(cell(grid, n - 1, c)), self.limit(grid, c));
            if self.is_header_row(n - 1) && w > before {
                w
            } else {
                before
            }
        }
    }

    /// The width of the data of column `c` in the rows before `n`: that of
    /// the widest data cell in its final form, each counted up to the
    /// limit of the column only.
    pub open spec fn data_width(
        &self,
        grid: Seq<Seq<Seq<char>>>,
        readings: Seq<Seq<Option<Seq<char>>>>,
        c: int,
        n: int,
    ) -> nat
        decreases n,
    {
        if n <= 0 {
            0
        } else {
            let before = self.data_width(grid, readings, c, n - 1);
            let w = clamped(cells(self.data_cell(grid, readings, n - 1, c)), self.limit(grid, c));
            if self.is_data_row(n - 1) && w > before {
                w
            } else {
                before
            }
        }
    }

    /// The width of column `c`: under the frame `WRAP` that of its data,
    /// else the greater of that of its headers and that of its data.
    pub open spec fn column_width(
        &self,
        grid: Seq<Seq<Seq<char>>>,
        readings: Seq<Seq<Option<Seq<char>>>>,
        c: int,
    ) -> nat {
        let data = self.data_width(grid, readings, c, grid.len() as int);
        match self.frame {
            Frame::WRAP => data,
            _ => wider(self.header_width(grid, c, grid.len() as int), data),
        }
    }

    /// Whether column `c` is numeric as far as the rows before `n` show:
    /// whether every data cell that those rows have in the column is a
    /// number.
    pub open spec fn numeric(
        &self,
        grid: Seq<Seq<Seq<char>>>,
        readings: Seq<Seq<Option<Seq<char>>>>,
        c: int,
        n: int,
    ) -> bool
        decreases n,
    {
        if n <= 0 {
            true
        } else {
            self.numeric(grid, readings, c, n - 1) && (self.is_data_row(n - 1) && 0 <= c < grid[n
                - 1].len() ==> reading_at(grid, readings, n - 1, c) is Some)
        }
    }

    /// The lines of the cell of row `r` in column `c`, fitted into its
    /// column. A data cell that is a number has one line, the number as
    /// numbers are shown, whatever its width; any other cell, and every
    /// header cell, is fitted by the rule of the frame.
    pub open spec fn cell_lines(
        &self,
        grid: Seq<Seq<Seq<char>>>,
        readings: Seq<Seq<Option<Seq<char>>>>,
        widths: Seq<usize>,
        r: int,
        c: int,
    ) -> Seq<Seq<char>> {
        if !self.is_header_row(r) && reading_at(grid, readings, r, c) is Some {
            seq![self.data_cell(grid, readings, r, c)]
        } else {
            fitted(cell(grid, r, c), self.frame, widths[c], !self.no_ellipsis)
        }
    }

    /// The number of lines that row `r` takes, by its first `n` columns:
    /// as many as the cell with the most lines has, and one at least.
    pub open spec fn row_height(
        &self,
        grid: Seq<Seq<Seq<char>>>,
        readings: Seq<Seq<Option<Seq<char>>>>,
        widths: Seq<usize>,
        r: int,
        n: int,
    ) -> nat
        decreases n,
    {
        if n <= 0 {
            1
        } else {
            wider(
                self.row_height(grid, readings, widths, r, n - 1),
                self.cell_lines(grid, readings, widths, r, n - 1).len(),
            )
        }
    }

    /// Line `k` of row `r`: line `k` of each of its cells as it stands in
    /// the table, with the output separator between them. A cell that the
    /// row lacks is empty.
    pub open spec fn row_line(
        &self,
        grid: Seq<Seq<Seq<char>>>,
        readings: Seq<Seq<Option<Seq<char>>>>,
        widths: Seq<usize>,
        flags: Seq<bool>,
        r: int,
        k: int,
    ) -> Seq<char> {
        joined(
            Seq::new(
                widths.len(),
                |c: int| self.piece(grid, readings, widths, flags, r, c, k),
            ),
            self.ofs,
        )
    }

    /// The lines of row `r`.
    pub open spec fn row_lines(
        &self,
        grid: Seq<Seq<Seq<char>>>,
        readings: Seq<Seq<Option<Seq<char>>>>,
        widths: Seq<usize>,
        flags: Seq<bool>,
        r: int,
    ) -> Seq<Seq<char>> {
        Seq::new(
            self.row_height(grid, readings, widths, r, widths.len() as int),
            |k: int| self.row_line(grid, readings, widths, flags, r, k),
        )
    }

    /// The lines of the header rows (`headers`) or of the data rows among
    /// the rows before `n`, in order.
    pub open spec fn block(
        &self,
        grid: Seq<Seq<Seq<char>>>,
        readings: Seq<Seq<Option<Seq<char>>>>,
        widths: Seq<usize>,
        flags: Seq<bool>,
        headers: bool,
        n: int,
    ) -> Seq<Seq<char>>
        decreases n,
    {
        if n <= 0 {
            Seq::empty()
        } else {
            let before = self.block(grid, readings, widths, flags, headers, n - 1);
            let wanted = if headers {
                self.is_header_row(n - 1)
            } else {
                self.is_data_row(n - 1)
            };
            if wanted {
                before + self.row_lines(grid, readings, widths, flags, n - 1)
            } else {
                before
            }
        }
    }

    /// The divider: for each column the divider character as many times as
    /// the column is wide, with the output separator between the columns.
    pub open spec fn divider(&self, widths: Seq<usize>) -> Seq<char> {
        joined(
            Seq::new(widths.len(), |c: int| repeated(self.divider_char, widths[c] as nat)),
            self.ofs,
        )
    }

    /// The lines of the table for the given column widths and numeric
    /// flags: those of the header rows, the divider unless it is left out,
    /// and those of the data rows.
    pub open spec fn lines(
        &self,
        grid: Seq<Seq<Seq<char>>>,
        readings: Seq<Seq<Option<Seq<char>>>>,
        widths: Seq<usize>,
        flags: Seq<bool>,
    ) -> Seq<Seq<char>> {
        let n = grid.len() as int;
        let rule = if self.no_divider {
            Seq::<Seq<char>>::empty()
        } else {
            seq![self.divider(widths)]
        };
        self.block(grid, readings, widths, flags, true, n) + rule + self.block(
            grid,
            readings,
            widths,
            flags,
            false,
            n,
        )
    }

    /// The rendered table for the given column widths and numeric flags:
    /// the lines of the header rows, the divider unless it is left out,
    /// and the lines of the data rows, joined by line feeds, without
    /// trailing whitespace.
    pub open spec fn rendered(
        &self,
        grid: Seq<Seq<Seq<char>>>,
        readings: Seq<Seq<Option<Seq<char>>>>,
        widths: Seq<usize>,
        flags: Seq<bool>,
    ) -> Seq<char> {
        trimmed_end(joined(self.lines(grid, readings, widths, flags), nl()))
    }

    /// The widths of the columns of the table.
    pub open spec fn widths(
        &self,
        grid: Seq<Seq<Seq<char>>>,
        readings: Seq<Seq<Option<Seq<char>>>>,
    ) -> Seq<usize> {
        Seq::new(columns(grid), |c: int| self.column_width(grid, readings, c) as usize)
    }

    /// The table of a grid and the readings of its fields: rendered with
    /// the widths of the columns and with what is known of their being
    /// numeric.
    pub open spec fn table(
        &self,
        grid: Seq<Seq<Seq<char>>>,
        readings: Seq<Seq<Option<Seq<char>>>>,
    ) -> Seq<char> {
        let n = columns(grid);
        self.rendered(
            grid,
            readings,
            self.widths(grid, readings),
            Seq::new(n, |c: int| self.numeric(grid, readings, c, grid.len() as int)),
        )
    }

    /// The widths of headers and data stay within the limit of the column.
    pub proof fn lemma_widths_within_limit(
        &self,
        grid: Seq<Seq<Seq<char>>>,
        readings: Seq<Seq<Option<Seq<char>>>>,
        c: int,
        n: int,
    )
        ensures
            self.header_width(grid, c, n) <= self.limit(grid, c),
            self.data_width(grid, readings, c, n) <= self.limit(grid, c),
        decreases n,
    {
        if n > 0 {
            self.lemma_widths_within_limit(grid, readings, c, n - 1);
        }
    }

    /// A column is no wider than its limit.
    pub proof fn lemma_column_width_within_limit(
        &self,
        grid: Seq<Seq<Seq<char>>>,
        readings: Seq<Seq<Option<Seq<char>>>>,
        c: int,
    )
        ensures
            self.column_width(grid, readings, c) <= self.limit(grid, c),
    {
        self.lemma_widths_within_limit(grid, readings, c, grid.len() as int);
    }

    /// The width of the headers of a column is at least that of each of
    /// its header cells, counted up to the limit; so is the width of the
    /// data for each data cell in its final form.
    pub proof fn lemma_widths_cover(
        &self,
        grid: Seq<Seq<Seq<char>>>,
        readings: Seq<Seq<Option<Seq<char>>>>,
        c: int,
        r: int,
        n: int,
    )
        requires
            0 <= r < n,
        ensures
            self.is_header_row(r) ==> self.header_width(grid, c, n) >= clamped(
                cells(cell(grid, r, c)),
                self.limit(grid, c),
            ),
            self.is_data_row(r) ==> self.data_width(grid, readings, c, n) >= clamped(
                cells(self.data_cell(grid, readings, r, c)),
                self.limit(grid, c),
            ),
        decreases n,
    {
        if r < n - 1 {
            self.lemma_widths_cover(grid, readings, c, r, n - 1);
        }
    }

    /// Under the frames `TRUNCATE` and `NONE` a column is as wide as the
    /// wider of its headers and its data; so every header cell and every
    /// data cell that is no wider than the limit of its column is no wider
    /// than the column.
    pub proof fn lemma_column_width_covers(
        &self,
        grid: Seq<Seq<Seq<char>>>,
        readings: Seq<Seq<Option<Seq<char>>>>,
        c: int,
        r: int,
    )
        requires
            self.frame != Frame::WRAP,
            0 <= r < grid.len(),
        ensures
            self.column_width(grid, readings, c) == wider(
                self.header_width(grid, c, grid.len() as int),
                self.data_width(grid, readings, c, grid.len() as int),
            ),
            self.is_header_row(r) && cells(cell(grid, r, c)) <= self.limit(grid, c)
                ==> cells(cell(grid, r, c)) <= self.column_width(grid, readings, c),
            self.is_data_row(r) && cells(self.data_cell(grid, readings, r, c)) <= self.limit(
                grid,
                c,
            ) ==> cells(self.data_cell(grid, readings, r, c)) <= self.column_width(
                grid,
                readings,
                c,
            ),
    {
        self.lemma_widths_cover(grid, readings, c, r, grid.len() as int);
    }

    /// Under the frame `TRUNCATE` every cell that is no number fills its
    /// column exactly: each of its lines, as it stands in the table, is as
    /// wide as the column. This holds of a column that has no template.
    pub proof fn lemma_text_cell_fills_column(
        &self,
        grid: Seq<Seq<Seq<char>>>,
        readings: Seq<Seq<Option<Seq<char>>>>,
        widths: Seq<usize>,
        flags: Seq<bool>,
        r: int,
        c: int,
        k: int,
    )
        requires
            self.frame == Frame::TRUNCATE,
            0 <= c < widths.len(),
            self.template(grid, c).len() == 0,
            self.is_header_row(r) || reading_at(grid, readings, r, c) is None,
        ensures
            cells(self.piece(grid, readings, widths, flags, r, c, k)) == widths[c],
    {
        let line = line_at(self.cell_lines(grid, readings, widths, r, c), k);
        lemma_truncated_fits(cell(grid, r, c), widths[c] as nat, !self.no_ellipsis);
        assert(cells(Seq::<char>::empty()) == 0);
        assert(cells(line) <= widths[c]);
        lemma_cells_aligned(line, widths[c] as nat);
    }

    /// Whether the cell of row `r` in column `c` fits the column as it is
    /// shown: a number must be no wider than the column, for it is never
    /// cut; any other text fits, for it is cut to the column.
    pub open spec fn fits(
        &self,
        grid: Seq<Seq<Seq<char>>>,
        readings: Seq<Seq<Option<Seq<char>>>>,
        widths: Seq<usize>,
        r: int,
        c: int,
    ) -> bool {
        !self.is_header_row(r) && reading_at(grid, readings, r, c) is Some ==> cells(
            self.data_cell(grid, readings, r, c),
        ) <= widths[c]
    }

    /// Under the frame `TRUNCATE` a line of a row fills its columns
    /// exactly: it is as wide as the columns and the separators between
    /// them together. This holds where no column has a template and every
    /// number of the row fits its column: a number is never cut, so one that
    /// is wider than its column makes the line wider.
    pub proof fn lemma_row_line_width(
        &self,
        grid: Seq<Seq<Seq<char>>>,
        readings: Seq<Seq<Option<Seq<char>>>>,
        widths: Seq<usize>,
        flags: Seq<bool>,
        r: int,
        k: int,
    )
        requires
            self.frame == Frame::TRUNCATE,
            forall|c: int| 0 <= c < widths.len() ==> self.template(grid, c).len() == 0,
            forall|c: int| 0 <= c < widths.len() ==> self.fits(grid, readings, widths, r, c),
        ensures
            cells(self.row_line(grid, readings, widths, flags, r, k)) == full_width(
                widths,
                self.ofs,
            ),
    {
        let parts = Seq::new(
            widths.len(),
            |c: int| self.piece(grid, readings, widths, flags, r, c, k),
        );
        assert forall|c: int| 0 <= c < parts.len() implies cells(#[trigger] parts[c])
            == widths[c] by {
            assert(self.template(grid, c).len() == 0);
            assert(self.fits(grid, readings, widths, r, c));
            let line = line_at(self.cell_lines(grid, readings, widths, r, c), k);
            assert(cells(Seq::<char>::empty()) == 0);
            lemma_truncated_fits(cell(grid, r, c), widths[c] as nat, !self.no_ellipsis);
            assert(cells(line) <= widths[c]);
            lemma_cells_aligned(line, widths[c] as nat);
        }
        lemma_total_is_sum(parts, widths);
        lemma_cells_joined(parts, self.ofs);
    }

    /// With the widths that the table gives its columns, every number
    /// that is no wider than the limit of its column fits its column. This
    /// holds of the cells of data rows under the frames `TRUNCATE` and
    /// `NONE`.
    pub proof fn lemma_cells_fit(
        &self,
        grid: Seq<Seq<Seq<char>>>,
        readings: Seq<Seq<Option<Seq<char>>>>,
        r: int,
        c: int,
    )
        requires
            self.frame != Frame::WRAP,
            0 <= r < grid.len(),
            0 <= c < columns(grid),
            self.is_header_row(r) || self.is_data_row(r),
            !self.is_header_row(r) && reading_at(grid, readings, r, c) is Some ==> cells(
                self.data_cell(grid, readings, r, c),
            ) <= self.limit(grid, c),
        ensures
            self.fits(grid, readings, self.widths(grid, readings), r, c),
    {
        self.lemma_widths_cover(grid, readings, c, r, grid.len() as int);
        self.lemma_column_width_within_limit(grid, readings, c);
    }

    /// Under the frame `TRUNCATE`, in a table without templates, every
    /// line of a header row or a data row is exactly as wide as the
    /// columns of the table and the separators between them together,
    /// unless the row holds a number that is wider than the limit of its
    /// column.
    pub proof fn lemma_table_line_width(
        &self,
        grid: Seq<Seq<Seq<char>>>,
        readings: Seq<Seq<Option<Seq<char>>>>,
        flags: Seq<bool>,
        r: int,
        k: int,
    )
        requires
            self.frame == Frame::TRUNCATE,
            self.format_string_index == 0,
            0 <= r < grid.len(),
            self.is_header_row(r) || self.is_data_row(r),
            forall|c: int|
                0 <= c < columns(grid) && !self.is_header_row(r) && (#[trigger] reading_at(
                    grid,
                    readings,
                    r,
                    c,
                )) is Some ==> cells(self.data_cell(grid, readings, r, c)) <= self.limit(
                    grid,
                    c,
                ),
        ensures
            cells(self.row_line(grid, readings, self.widths(grid, readings), flags, r, k))
                == full_width(self.widths(grid, readings), self.ofs),
    {
        let widths = self.widths(grid, readings);
        assert forall|c: int| 0 <= c < widths.len() implies self.fits(
            grid,
            readings,
            widths,
            r,
            c,
        ) by {
            if !self.is_header_row(r) && reading_at(grid, readings, r, c) is Some {
            }
            self.lemma_cells_fit(grid, readings, r, c);
        }
        self.lemma_row_line_width(grid, readings, widths, flags, r, k);
    }

    /// Whether no number of the table is wider than the limit of its
    /// column.
    pub open spec fn numbers_fit(
        &self,
        grid: Seq<Seq<Seq<char>>>,
        readings: Seq<Seq<Option<Seq<char>>>>,
    ) -> bool {
        forall|r: int, c: int|
            0 <= r < grid.len() && 0 <= c < columns(grid) && !self.is_header_row(r) && (
            #[trigger] reading_at(grid, readings, r, c)) is Some ==> cells(
                self.data_cell(grid, readings, r, c),
            ) <= self.limit(grid, c)
    }

    /// Under the frame `TRUNCATE`, in a table without templates in which
    /// no number is wider than the limit of its column, every line of the
    /// header rows, and every line of the data rows, is exactly as wide as
    /// the columns and the separators between them together.
    pub proof fn lemma_block_lines_width(
        &self,
        grid: Seq<Seq<Seq<char>>>,
        readings: Seq<Seq<Option<Seq<char>>>>,
        flags: Seq<bool>,
        headers: bool,
        n: int,
    )
        requires
            self.frame == Frame::TRUNCATE,
            self.format_string_index == 0,
            n <= grid.len(),
            self.numbers_fit(grid, readings),
        ensures
            forall|i: int|
                0 <= i < self.block(
                    grid,
                    readings,
                    self.widths(grid, readings),
                    flags,
                    headers,
                    n,
                ).len() ==> cells(
                    #[trigger] self.block(
                        grid,
                        readings,
                        self.widths(grid, readings),
                        flags,
                        headers,
                        n,
                    )[i],
                ) == full_width(self.widths(grid, readings), self.ofs),
        decreases n,
    {
        if n > 0 {
            let widths = self.widths(grid, readings);
            self.lemma_block_lines_width(grid, readings, flags, headers, n - 1);
            let before = self.block(grid, readings, widths, flags, headers, n - 1);
            let all = self.block(grid, readings, widths, flags, headers, n);
            let wanted = if headers {
                self.is_header_row(n - 1)
            } else {
                self.is_data_row(n - 1)
            };
            if wanted {
                let row = self.row_lines(grid, readings, widths, flags, n - 1);
                assert forall|i: int| 0 <= i < all.len() implies cells(#[trigger] all[i])
                    == full_width(widths, self.ofs) by {
                    if i < before.len() {
                        assert(all[i] == before[i]);
                    } else {
                        let k = i - before.len();
                        assert(all[i] == row[k]);
                        self.lemma_table_line_width(grid, readings, flags, n - 1, k);
                    }
                }
            }
        }
    }

    /// The divider is no wider than the columns and the separators
    /// between them together, where the divider character takes one column
    /// or none; with a character of one column it is exactly as wide.
    pub proof fn lemma_divider_width(&self, widths: Seq<usize>)
        requires
            cells_of(self.divider_char) <= 1,
        ensures
            cells(self.divider(widths)) <= full_width(widths, self.ofs),
            cells_of(self.divider_char) == 1 ==> cells(self.divider(widths)) == full_width(
                widths,
                self.ofs,
            ),
    {
        let parts = Seq::new(
            widths.len(),
            |c: int| repeated(self.divider_char, widths[c] as nat),
        );
        let d = cells_of(self.divider_char);
        assert forall|c: int| 0 <= c < parts.len() implies cells(#[trigger] parts[c])
            <= widths[c] && (d == 1 ==> cells(parts[c]) == widths[c]) by {
            lemma_cells_repeated(self.divider_char, widths[c] as nat);
            let w = widths[c] as nat;
            assert(w * d <= w && (d == 1 ==> w * d == w)) by (nonlinear_arith)
                requires
                    d <= 1,
            ;
        }
        lemma_total_at_most_sum(parts, widths);
        if d == 1 {
            lemma_total_is_sum(parts, widths);
        }
        lemma_cells_joined(parts, self.ofs);
    }

    /// No line of the table is wider than the columns and the separators
    /// between them together. This holds under the frame `TRUNCATE`,
    /// without templates, without a divider or with a divider character of
    /// one column or none, and where no number is wider than the limit of
    /// its column: a number is never cut. The rendered table is these
    /// lines joined, without the trailing whitespace of the last.
    pub proof fn lemma_table_lines_width(
        &self,
        grid: Seq<Seq<Seq<char>>>,
        readings: Seq<Seq<Option<Seq<char>>>>,
        flags: Seq<bool>,
    )
        requires
            self.frame == Frame::TRUNCATE,
            self.format_string_index == 0,
            self.no_divider || cells_of(self.divider_char) <= 1,
            self.numbers_fit(grid, readings),
        ensures
            forall|i: int|
                0 <= i < self.lines(grid, readings, self.widths(grid, readings), flags).len()
                    ==> cells(
                    #[trigger] self.lines(grid, readings, self.widths(grid, readings), flags)[i],
                ) <= full_width(self.widths(grid, readings), self.ofs),
    {
        let widths = self.widths(grid, readings);
        let n = grid.len() as int;
        self.lemma_block_lines_width(grid, readings, flags, true, n);
        self.lemma_block_lines_width(grid, readings, flags, false, n);
        if !self.no_divider {
            self.lemma_divider_width(widths);
        }
        let head = self.block(grid, readings, widths, flags, true, n);
        let data = self.block(grid, readings, widths, flags, false, n);
        let rule = if self.no_divider {
            Seq::<Seq<char>>::empty()
        } else {
            seq![self.divider(widths)]
        };
        let all = self.lines(grid, readings, widths, flags);
        assert(all == head + rule + data);
        assert forall|i: int| 0 <= i < all.len() implies cells(#[trigger] all[i]) <= full_width(
            widths,
            self.ofs,
        ) by {
            if i < head.len() {
                assert(all[i] == head[i]);
            } else if i < head.len() + rule.len() {
                assert(all[i] == rule[i - head.len()]);
            } else {
                assert(all[i] == data[i - head.len() - rule.len()]);
            }
        }
    }

    /// Whatever the frame, a line of a cell, padded, is as wide as the
    /// wider of the line and the column.
    pub proof fn lemma_placed_width(line: Seq<char>, side: Alignment, width: nat)
        ensures
            cells(placed(line, side, width)) == wider(cells(line), width),
    {
        lemma_cells_aligned(line, width);
    }

    /// Once a data cell of a column is no number, the column is not
    /// numeric, however many rows follow.
    pub proof fn lemma_numeric_stays_false(
        &self,
        grid: Seq<Seq<Seq<char>>>,
        readings: Seq<Seq<Option<Seq<char>>>>,
        c: int,
        n: int,
        m: int,
    )
        requires
            n <= m,
            !self.numeric(grid, readings, c, n),
        ensures
            !self.numeric(grid, readings, c, m),
        decreases m - n,
    {
        if n < m {
            self.lemma_numeric_stays_false(grid, readings, c, n, m - 1);
        }
    }

    /// A column is numeric exactly where every data cell that it has is a
    /// number.
    pub proof fn lemma_numeric_means_all(
        &self,
        grid: Seq<Seq<Seq<char>>>,
        readings: Seq<Seq<Option<Seq<char>>>>,
        c: int,
        n: int,
    )
        requires
            0 <= c,
        ensures
            self.numeric(grid, readings, c, n) <==> (forall|r: int|
                0 <= r < n && self.is_data_row(r) && c < grid[r].len() ==> (#[trigger] reading_at(
                    grid,
                    readings,
                    r,
                    c,
                )) is Some),
        decreases n,
    {
        if n > 0 {
            self.lemma_numeric_means_all(grid, readings, c, n - 1);
            if self.numeric(grid, readings, c, n) {
            } else if !self.numeric(grid, readings, c, n - 1) {
            } else {
                assert(!(reading_at(grid, readings, n - 1, c) is Some));
            }
        }
    }
}

} // verus!
