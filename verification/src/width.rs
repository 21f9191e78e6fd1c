//! Display width: the number of terminal columns that a text takes, and
//! padding to a width.
//!
//! The width of a character comes from the `unicode-width` crate, and the
//! width of a text is the sum of the widths of its characters.
use crate::chars::{extend, extend_repeated, joined, repeated, to_text, trimmed_end};
use unicode_width::{UnicodeWidthChar, UnicodeWidthStr};
use vstd::prelude::*;

verus! {

/// What `unicode_width::UnicodeWidthChar::width` returns for `c`: the
/// number of columns, or `None` for a control character.
pub uninterp spec fn char_cells(c: char) -> Option<usize>;

/// The number of columns that `c` takes: one for a printable ASCII
/// character, none for a control character, and for any other character
/// what `unicode-width` gives for it.
pub open spec fn cells_of(c: char) -> nat {
    if ' ' <= c <= '~' {
        1
    } else {
        match char_cells(c) {
            Some(n) => n as nat,
            None => 0,
        }
    }
}

/// The number of columns that `s` takes.
pub open spec fn cells(s: Seq<char>) -> nat
    decreases s.len(),
{
    if s.len() == 0 {
        0
    } else {
        cells(s.drop_last()) + cells_of(s.last())
    }
}

/// Calls `unicode_width::UnicodeWidthChar::width`. The result is named
/// `char_cells`; of it this states only that a printable ASCII character
/// (U+0020 to U+007E) takes one column, as the first lines of that
/// function show.
#[verifier::external_body]
pub(crate) fn char_width(c: char) -> (w: Option<usize>)
    ensures
        w == char_cells(c),
        ' ' <= c <= '~' ==> w == Some(1usize),
{
    UnicodeWidthChar::width(c)
}

/// Calls `unicode_width::UnicodeWidthStr::width`, which adds up the widths
/// that `UnicodeWidthChar::width` gives for the characters and counts a
/// control character as zero.
#[verifier::external_body]
pub(crate) fn str_width(s: &str) -> (w: usize)
    ensures
        w == cells(s@),
{
    UnicodeWidthStr::width(s)
}

/// The number of columns that `c` takes.
pub fn char_columns(c: char) -> (w: usize)
    ensures
        w == cells_of(c),
        ' ' <= c <= '~' ==> w == 1,
{
    match char_width(c) {
        Some(n) => n,
        None => 0,
    }
}

/// The number of columns that `s` takes.
pub fn display_width(s: &str) -> (w: usize)
    ensures
        w == cells(s@),
{
    str_width(s)
}

/// The number of columns that the characters of `v` take.
pub fn width_of(v: &Vec<char>) -> (w: usize)
    ensures
        w == cells(v@),
{
    let s = to_text(v);
    str_width(s.as_str())
}

/// The width of two texts side by side is the sum of their widths.
pub proof fn lemma_cells_concat(a: Seq<char>, b: Seq<char>)
    ensures
        cells(a + b) == cells(a) + cells(b),
    decreases b.len(),
{
    if b.len() == 0 {
        assert(a + b =~= a);
    } else {
        lemma_cells_concat(a, b.drop_last());
        assert((a + b).drop_last() =~= a + b.drop_last());
    }
}

/// A text of one character is as wide as the character.
pub proof fn lemma_cells_single(c: char)
    ensures
        cells(seq![c]) == cells_of(c),
{
    assert(seq![c].drop_last() =~= Seq::<char>::empty());
    assert(cells(Seq::<char>::empty()) == 0);
    assert(seq![c].last() == c);
}

/// One more character adds its own width.
pub proof fn lemma_cells_push(s: Seq<char>, c: char)
    ensures
        cells(s.push(c)) == cells(s) + cells_of(c),
{
    assert(s.push(c).drop_last() =~= s);
}

/// A beginning of a text is no wider than the text.
pub proof fn lemma_cells_take(s: Seq<char>, k: int)
    requires
        0 <= k <= s.len(),
    ensures
        cells(s.take(k)) <= cells(s),
        cells(s) == cells(s.take(k)) + cells(s.skip(k)),
{
    assert(s.take(k) + s.skip(k) =~= s);
    lemma_cells_concat(s.take(k), s.skip(k));
}

/// Taking trailing whitespace off does not widen a text.
pub proof fn lemma_cells_trimmed_end(s: Seq<char>)
    ensures
        cells(trimmed_end(s)) <= cells(s),
{
    crate::chars::lemma_trimmed_end_clean(s);
    lemma_cells_take(s, trimmed_end(s).len() as int);
}

/// `n` copies of a character are `n` times as wide as the character.
pub proof fn lemma_cells_repeated(c: char, n: nat)
    ensures
        cells(repeated(c, n)) == n * cells_of(c),
    decreases n,
{
    if n == 0 {
    } else {
        lemma_cells_repeated(c, (n - 1) as nat);
        assert(repeated(c, n).drop_last() =~= repeated(c, (n - 1) as nat));
        assert(n * cells_of(c) == (n - 1) * cells_of(c) + cells_of(c)) by (nonlinear_arith);
    }
}

/// The widths of the texts, added up.
pub open spec fn total_cells(parts: Seq<Seq<char>>) -> nat
    decreases parts.len(),
{
    if parts.len() == 0 {
        0
    } else {
        total_cells(parts.drop_last()) + cells(parts.last())
    }
}

/// Joined texts are as wide as the texts and the separators between them
/// together.
pub proof fn lemma_cells_joined(parts: Seq<Seq<char>>, sep: Seq<char>)
    ensures
        cells(joined(parts, sep)) == if parts.len() == 0 {
            0
        } else {
            total_cells(parts) + (parts.len() - 1) * cells(sep)
        },
    decreases parts.len(),
{
    let n = parts.len() as int;
    let w = cells(sep) as int;
    if n == 0 {
        assert(cells(Seq::<char>::empty()) == 0);
    } else if n == 1 {
        assert(total_cells(parts.drop_last()) == 0);
        assert(parts.last() == parts[0]);
        assert(total_cells(parts) == cells(parts[0]));
        assert((n - 1) * w == 0) by (nonlinear_arith)
            requires
                n == 1,
        ;
    } else {
        let init = parts.drop_last();
        lemma_cells_joined(init, sep);
        lemma_cells_concat(joined(init, sep), sep);
        lemma_cells_concat(joined(init, sep) + sep, parts.last());
        assert(cells(joined(init, sep)) == total_cells(init) + (n - 2) * w);
        assert(cells(joined(parts, sep)) == cells(joined(init, sep)) + w + cells(parts.last()));
        assert(total_cells(parts) == total_cells(init) + cells(parts.last()));
        assert((n - 2) * w + w == (n - 1) * w) by (nonlinear_arith);
    }
}

/// `n` spaces.
pub open spec fn spaces(n: nat) -> Seq<char> {
    repeated(' ', n)
}

/// The number of columns that `s` lacks to be `width` wide.
pub open spec fn gap(s: Seq<char>, width: nat) -> nat {
    if cells(s) < width {
        (width - cells(s)) as nat
    } else {
        0
    }
}

/// `s` followed by the spaces that it lacks to be `width` wide.
pub open spec fn left_aligned(s: Seq<char>, width: nat) -> Seq<char> {
    s + spaces(gap(s, width))
}

/// `s` preceded by the spaces that it lacks to be `width` wide.
pub open spec fn right_aligned(s: Seq<char>, width: nat) -> Seq<char> {
    spaces(gap(s, width)) + s
}

/// `s` between the spaces that it lacks to be `width` wide: half of them
/// before it, and the other half, with the odd one, after it.
pub open spec fn centered(s: Seq<char>, width: nat) -> Seq<char> {
    spaces(gap(s, width) / 2) + s + spaces((gap(s, width) - gap(s, width) / 2) as nat)
}

/// A text padded to a width is as wide as the wider of the two, whichever
/// side the spaces stand on.
pub proof fn lemma_cells_aligned(s: Seq<char>, width: nat)
    ensures
        cells(left_aligned(s, width)) == if cells(s) < width { width } else { cells(s) },
        cells(right_aligned(s, width)) == if cells(s) < width { width } else { cells(s) },
        cells(centered(s, width)) == if cells(s) < width { width } else { cells(s) },
{
    let g = gap(s, width);
    let h = g / 2;
    lemma_cells_repeated(' ', g);
    lemma_cells_repeated(' ', h);
    lemma_cells_repeated(' ', (g - h) as nat);
    lemma_cells_concat(s, spaces(g));
    lemma_cells_concat(spaces(g), s);
    lemma_cells_concat(spaces(h), s);
    lemma_cells_concat(spaces(h) + s, spaces((g - h) as nat));
}

/// `v` padded with spaces on the right to `width` columns.
pub fn align_left(v: &Vec<char>, width: usize) -> (r: Vec<char>)
    ensures
        r@ == left_aligned(v@, width as nat),
        cells(r@) == if cells(v@) < width { width as nat } else { cells(v@) },
{
    let w = width_of(v);
    proof {
        lemma_cells_aligned(v@, width as nat);
    }
    let mut r: Vec<char> = Vec::new();
    extend(&mut r, v);
    if w < width {
        extend_repeated(&mut r, ' ', width - w);
    } else {
        assert(spaces(0) =~= Seq::<char>::empty());
    }
    assert(r@ =~= left_aligned(v@, width as nat));
    r
}

/// `v` padded with spaces on the left to `width` columns.
pub fn align_right(v: &Vec<char>, width: usize) -> (r: Vec<char>)
    ensures
        r@ == right_aligned(v@, width as nat),
        cells(r@) == if cells(v@) < width { width as nat } else { cells(v@) },
{
    let w = width_of(v);
    proof {
        lemma_cells_aligned(v@, width as nat);
    }
    let mut r: Vec<char> = Vec::new();
    if w < width {
        extend_repeated(&mut r, ' ', width - w);
    } else {
        assert(spaces(0) =~= Seq::<char>::empty());
    }
    extend(&mut r, v);
    assert(r@ =~= right_aligned(v@, width as nat));
    r
}

/// `v` padded with spaces on both sides to `width` columns; the odd space
/// stands on the right.
pub fn align_center(v: &Vec<char>, width: usize) -> (r: Vec<char>)
    ensures
        r@ == centered(v@, width as nat),
        cells(r@) == if cells(v@) < width { width as nat } else { cells(v@) },
{
    let w = width_of(v);
    proof {
        lemma_cells_aligned(v@, width as nat);
    }
    let total: usize = if w < width {
        width - w
    } else {
        0
    };
    let before: usize = total / 2;
    let mut r: Vec<char> = Vec::new();
    extend_repeated(&mut r, ' ', before);
    extend(&mut r, v);
    extend_repeated(&mut r, ' ', total - before);
    assert(r@ =~= centered(v@, width as nat));
    r
}

} // verus!
