//! The grid: the rows of fields that a text is split into, and the
//! readings of its fields.
//!
//! A cell that is a number is shown as a number. Whether a field is a
//! number is decided outside this library (see the `number` module), which
//! takes the answer as *readings*: one reading for each field of the grid,
//! row by row. A reading that is missing counts as `None`.
use crate::chars::{
    clean_lines, kept_lines, split, split_fields, text_lines, texts, to_chars, to_texts, trim,
    trimmed, views,
};
use vstd::prelude::*;

verus! {

/// The views of the rows of a grid of character vectors.
pub open spec fn grid_view(g: Seq<Vec<Vec<char>>>) -> Seq<Seq<Seq<char>>> {
    Seq::new(g.len(), |r: int| views(g[r]@))
}

/// The views of the rows of a grid of strings.
pub open spec fn rows_view(g: Seq<Vec<String>>) -> Seq<Seq<Seq<char>>> {
    Seq::new(g.len(), |r: int| texts(g[r]@))
}

/// The views of the readings.
pub open spec fn readings_view(readings: Seq<Vec<Option<String>>>) -> Seq<Seq<Option<Seq<char>>>> {
    Seq::new(
        readings.len(),
        |r: int|
            Seq::new(
                readings[r]@.len(),
                |c: int|
                    match readings[r]@[c] {
                        Some(s) => Some(s@),
                        None => None,
                    },
            ),
    )
}

/// The fields of a line: the pieces between the separators, trimmed.
pub open spec fn fields(line: Seq<char>, sep: Seq<char>) -> Seq<Seq<char>> {
    let parts = split_fields(line, sep);
    Seq::new(parts.len(), |c: int| trimmed(parts[c]))
}

/// The grid of a text: one row for each line that is not blank, with the
/// fields of the trimmed line.
pub open spec fn parsed(raw: Seq<char>, sep: Seq<char>) -> Seq<Seq<Seq<char>>> {
    let ls = kept_lines(text_lines(raw));
    Seq::new(ls.len(), |r: int| fields(ls[r], sep))
}

/// The number of columns of a grid: the length of its longest row.
pub open spec fn columns(grid: Seq<Seq<Seq<char>>>) -> nat
    decreases grid.len(),
{
    if grid.len() == 0 {
        0
    } else if grid.last().len() > columns(grid.drop_last()) {
        grid.last().len()
    } else {
        columns(grid.drop_last())
    }
}

/// No row is longer than the number of columns.
pub proof fn lemma_columns(grid: Seq<Seq<Seq<char>>>, r: int)
    requires
        0 <= r < grid.len(),
    ensures
        grid[r].len() <= columns(grid),
    decreases grid.len(),
{
    if r < grid.len() - 1 {
        lemma_columns(grid.drop_last(), r);
    }
}

/// The field of row `r` in column `c`; empty where the row is too short.
pub open spec fn cell(grid: Seq<Seq<Seq<char>>>, r: int, c: int) -> Seq<char> {
    if 0 <= r < grid.len() && 0 <= c < grid[r].len() {
        grid[r][c]
    } else {
        Seq::empty()
    }
}

/// The reading of the field of row `r` in column `c`: what `readings`
/// hold for it, and `None` where the grid has no such field or the
/// readings hold nothing for it.
pub open spec fn reading_at(
    grid: Seq<Seq<Seq<char>>>,
    readings: Seq<Seq<Option<Seq<char>>>>,
    r: int,
    c: int,
) -> Option<Seq<char>> {
    if 0 <= r < grid.len() && 0 <= c < grid[r].len() && r < readings.len() && c
        < readings[r].len() {
        readings[r][c]
    } else {
        None
    }
}

/// Splits a text into its grid.
pub fn parse_chars(raw: &Vec<char>, sep: &Vec<char>) -> (g: Vec<Vec<Vec<char>>>)
    ensures
        grid_view(g@) == parsed(raw@, sep@),
{
    let kept = clean_lines(raw);
    let mut g: Vec<Vec<Vec<char>>> = Vec::new();
    let mut r: usize = 0;
    while r < kept.len()
        invariant
            r <= kept.len(),
            g.len() == r,
            forall|k: int| 0 <= k < r ==> views(g@[k]@) == fields(kept@[k]@, sep@),
        decreases kept.len() - r,
    {
        let parts = split(&kept[r], sep);
        let mut row: Vec<Vec<char>> = Vec::new();
        let mut c: usize = 0;
        while c < parts.len()
            invariant
                c <= parts.len(),
                row.len() == c,
                forall|k: int| 0 <= k < c ==> row@[k]@ == trimmed(parts@[k]@),
            decreases parts.len() - c,
        {
            row.push(trim(&parts[c]));
            c += 1;
        }
        assert(views(row@) =~= fields(kept@[r as int]@, sep@)) by {
            let ps = split_fields(kept@[r as int]@, sep@);
            assert(views(parts@) == ps);
            assert forall|k: int| 0 <= k < ps.len() implies views(row@)[k] == trimmed(ps[k]) by {
                assert(views(parts@)[k] == parts@[k]@);
            }
        }
        g.push(row);
        r += 1;
    }
    assert(grid_view(g@) =~= parsed(raw@, sep@)) by {
        let ls = kept_lines(text_lines(raw@));
        assert(views(kept@) == ls);
        assert forall|k: int| 0 <= k < ls.len() implies grid_view(g@)[k] == fields(ls[k], sep@) by {
            assert(views(kept@)[k] == kept@[k]@);
        }
    }
    g
}

/// Splits a text into its grid: blank lines are left out, every other line
/// is trimmed and split on the literal separator, and every field is
/// trimmed. Short rows stay short.
pub fn parse(raw: &str, sep: &str) -> (g: Vec<Vec<String>>)
    ensures
        rows_view(g@) == parsed(raw@, sep@),
{
    let grid = parse_chars(&to_chars(raw), &to_chars(sep));
    let mut g: Vec<Vec<String>> = Vec::new();
    let mut r: usize = 0;
    while r < grid.len()
        invariant
            r <= grid.len(),
            g.len() == r,
            forall|k: int| 0 <= k < r ==> texts(g@[k]@) == views(grid@[k]@),
        decreases grid.len() - r,
    {
        g.push(to_texts(&grid[r]));
        r += 1;
    }
    assert(rows_view(g@) =~= grid_view(grid@));
    g
}

/// The number of columns of a grid.
pub fn count_columns(grid: &Vec<Vec<Vec<char>>>) -> (n: usize)
    ensures
        n == columns(grid_view(grid@)),
{
    let ghost gv = grid_view(grid@);
    let mut n: usize = 0;
    let mut r: usize = 0;
    assert(gv.take(0) =~= Seq::<Seq<Seq<char>>>::empty());
    while r < grid.len()
        invariant
            r <= grid.len(),
            gv == grid_view(grid@),
            n == columns(gv.take(r as int)),
        decreases grid.len() - r,
    {
        proof {
            let next = gv.take(r + 1);
            assert(next.drop_last() =~= gv.take(r as int));
            assert(next.last().len() == grid@[r as int].len());
        }
        if grid[r].len() > n {
            n = grid[r].len();
        }
        r += 1;
    }
    assert(gv.take(grid.len() as int) =~= gv);
    n
}

pub(crate) fn reading_chars(
    readings: &Vec<Vec<Option<String>>>,
    r: usize,
    c: usize,
) -> (found: Option<Vec<char>>)
    ensures
        (match found {
            Some(v) => Some(v@),
            None => None,
        }) == (if r < readings.len() && c < readings@[r as int].len() {
            readings_view(readings@)[r as int][c as int]
        } else {
            None
        }),
{
    if r < readings.len() && c < readings[r].len() {
        match &readings[r][c] {
            Some(s) => Some(to_chars(s.as_str())),
            None => None,
        }
    } else {
        None
    }
}

} // verus!
