//! Fitting a text into a width: truncating it, wrapping it, and the
//! whole-text operations on the lines of a text.
use crate::chars::{
    clean_lines, join, joined, kept_lines, lines, slice, text_lines, texts, to_chars,
    to_text, trim, trim_end, trim_start, trimmed, trimmed_end, trimmed_start, views,
};
use crate::width::{
    align_center, align_right, cells, cells_of, centered, char_columns, lemma_cells_concat,
    lemma_cells_push, lemma_cells_trimmed_end, right_aligned, width_of,
};
use vstd::prelude::*;

verus! {

/// The number of leading characters of `s` that fit into `budget` columns:
/// the characters are taken one by one up to the first that does not fit
/// into what is left.
pub open spec fn fit_len(s: Seq<char>, budget: nat) -> nat
    decreases s.len(),
{
    if s.len() == 0 || cells_of(s[0]) > budget {
        0
    } else {
        1 + fit_len(s.drop_first(), (budget - cells_of(s[0])) as nat)
    }
}

/// The fitting characters are a beginning of the text that is no wider
/// than the budget, and the longest such: with one more character it would
/// be wider.
pub proof fn lemma_fit_len(s: Seq<char>, budget: nat)
    ensures
        fit_len(s, budget) <= s.len(),
        cells(s.take(fit_len(s, budget) as int)) <= budget,
        fit_len(s, budget) < s.len() ==> cells(s.take(fit_len(s, budget) as int + 1)) > budget,
    decreases s.len(),
{
    if s.len() == 0 || cells_of(s[0]) > budget {
        assert(cells(s.take(0)) == 0);
        if s.len() > 0 {
            assert(s.take(1) =~= seq![s[0]]);
            crate::width::lemma_cells_single(s[0]);
        }
    } else {
        let rest = s.drop_first();
        let left = (budget - cells_of(s[0])) as nat;
        let k = fit_len(rest, left) as int;
        lemma_fit_len(rest, left);
        crate::width::lemma_cells_single(s[0]);
        assert(s.take(k + 1) =~= seq![s[0]] + rest.take(k));
        lemma_cells_concat(seq![s[0]], rest.take(k));
        if k < rest.len() {
            assert(s.take(k + 2) =~= seq![s[0]] + rest.take(k + 1));
            lemma_cells_concat(seq![s[0]], rest.take(k + 1));
        }
    }
}

/// The marker that stands for what was cut off.
pub open spec fn ellipsis() -> Seq<char> {
    seq!['.', '.', '.']
}

/// The columns left for the text itself when `s` is cut to `width`: three
/// less where the ellipsis is shown, but never less than none.
pub open spec fn budget(width: nat, use_ellipsis: bool) -> nat {
    if !use_ellipsis {
        width
    } else if width >= 3 {
        (width - 3) as nat
    } else {
        0
    }
}

/// `s` cut to `width` columns. A text that fits stays as it is. Of another
/// one the longest beginning stays that leaves room for the ellipsis,
/// without its trailing whitespace; the ellipsis follows it where it is
/// shown and the width is more than three.
pub open spec fn truncated(s: Seq<char>, width: nat, use_ellipsis: bool) -> Seq<char> {
    if cells(s) <= width {
        s
    } else {
        let kept = trimmed_end(s.take(fit_len(s, budget(width, use_ellipsis)) as int));
        if use_ellipsis && width > 3 {
            kept + ellipsis()
        } else {
            kept
        }
    }
}

/// A truncated text is no wider than the width.
pub proof fn lemma_truncated_fits(s: Seq<char>, width: nat, use_ellipsis: bool)
    ensures
        cells(truncated(s, width, use_ellipsis)) <= width,
{
    if cells(s) > width {
        let b = budget(width, use_ellipsis);
        let head = s.take(fit_len(s, b) as int);
        lemma_fit_len(s, b);
        lemma_cells_trimmed_end(head);
        let kept = trimmed_end(head);
        lemma_cells_concat(kept, ellipsis());
        assert(ellipsis() =~= Seq::<char>::empty().push('.').push('.').push('.'));
        lemma_cells_push(Seq::<char>::empty(), '.');
        lemma_cells_push(Seq::<char>::empty().push('.'), '.');
        lemma_cells_push(Seq::<char>::empty().push('.').push('.'), '.');
        assert(cells(Seq::<char>::empty()) == 0);
    }
}

/// What is cut has one of two shapes. Where the ellipsis is not shown or
/// the width is three or less, it is a beginning of the text: nothing is
/// added to it. Else a text that is too wide becomes one of its beginnings
/// followed by the ellipsis.
pub proof fn lemma_truncated_shape(s: Seq<char>, width: nat, use_ellipsis: bool)
    ensures
        !use_ellipsis || width <= 3 ==> truncated(s, width, use_ellipsis) == s.take(
            truncated(s, width, use_ellipsis).len() as int,
        ),
        use_ellipsis && width > 3 && cells(s) > width ==> truncated(s, width, use_ellipsis).len()
            >= 3 && truncated(s, width, use_ellipsis) == s.take(
            truncated(s, width, use_ellipsis).len() - 3,
        ) + ellipsis(),
{
    if cells(s) <= width {
        assert(s.take(s.len() as int) =~= s);
    } else {
        let head = s.take(fit_len(s, budget(width, use_ellipsis)) as int);
        lemma_fit_len(s, budget(width, use_ellipsis));
        crate::chars::lemma_trimmed_end_clean(head);
        let kept = trimmed_end(head);
        assert(head.take(kept.len() as int) =~= s.take(kept.len() as int));
        if use_ellipsis && width > 3 {
            assert((kept + ellipsis()).len() - 3 == kept.len());
        }
    }
}

/// The number of leading characters of `v` that fit into `budget`
/// columns.
pub fn fit(v: &Vec<char>, budget: usize) -> (k: usize)
    ensures
        k == fit_len(v@, budget as nat),
        k <= v.len(),
{
    let mut i: usize = 0;
    let mut left: usize = budget;
    assert(v@.skip(0) =~= v@);
    while i < v.len()
        invariant
            i <= v.len(),
            left <= budget,
            fit_len(v@, budget as nat) == i + fit_len(v@.skip(i as int), left as nat),
        decreases v.len() - i,
    {
        let w = char_columns(v[i]);
        assert(v@.skip(i as int)[0] == v@[i as int]);
        if w > left {
            return i;
        }
        assert(v@.skip(i as int).drop_first() =~= v@.skip(i + 1));
        left = left - w;
        i += 1;
    }
    i
}

/// `v` cut to `width` columns.
pub fn truncate_chars(v: &Vec<char>, width: usize, use_ellipsis: bool) -> (r: Vec<char>)
    ensures
        r@ == truncated(v@, width as nat, use_ellipsis),
        cells(r@) <= width,
{
    proof {
        lemma_truncated_fits(v@, width as nat, use_ellipsis);
    }
    if width_of(v) <= width {
        return slice(v, 0, v.len());
    }
    let room: usize = if !use_ellipsis {
        width
    } else if width >= 3 {
        width - 3
    } else {
        0
    };
    let k = fit(v, room);
    let head = slice(v, 0, k);
    assert(head@ =~= v@.take(k as int));
    let mut r = trim_end(&head);
    if use_ellipsis && width > 3 {
        r.push('.');
        r.push('.');
        r.push('.');
        assert(r@ =~= trimmed_end(head@) + ellipsis());
    }
    r
}

/// What `textwrap::wrap` returns for `text` at `width`, with its default
/// options and the first-fit algorithm: the lines of the wrapped text.
pub uninterp spec fn wrapped(text: Seq<char>, width: usize) -> Seq<Seq<char>>;

/// Calls `textwrap::wrap` with the options that `Options::new(width)`
/// gives and the greedy first-fit algorithm. The result is named
/// `wrapped`; nothing more is stated of it.
#[verifier::external_body]
pub(crate) fn wrap_str(text: &str, width: usize) -> (r: Vec<String>)
    ensures
        texts(r@) == wrapped(text@, width),
{
    let options = textwrap::Options::new(width).wrap_algorithm(textwrap::WrapAlgorithm::FirstFit);
    textwrap::wrap(text, options).into_iter().map(|line| line.into_owned()).collect()
}

/// The lines of `v` wrapped to `width` columns.
pub fn wrap_chars(v: &Vec<char>, width: usize) -> (r: Vec<Vec<char>>)
    ensures
        views(r@) == wrapped(v@, width),
{
    let text = to_text(v);
    let wrapped_lines = wrap_str(text.as_str(), width);
    let mut r: Vec<Vec<char>> = Vec::new();
    let mut i: usize = 0;
    while i < wrapped_lines.len()
        invariant
            i <= wrapped_lines.len(),
            r.len() == i,
            forall|k: int| 0 <= k < i ==> r@[k]@ == wrapped_lines@[k]@,
        decreases wrapped_lines.len() - i,
    {
        r.push(to_chars(wrapped_lines[i].as_str()));
        i += 1;
    }
    assert(views(r@) =~= texts(wrapped_lines@));
    r
}

/// The line feed as a separator.
pub open spec fn nl() -> Seq<char> {
    seq!['\n']
}

fn newline() -> (r: Vec<char>)
    ensures
        r@ == nl(),
{
    let mut r: Vec<char> = Vec::new();
    r.push('\n');
    assert(r@ =~= nl());
    r
}

/// The width of the widest line.
pub open spec fn widest(lines: Seq<Seq<char>>) -> nat
    decreases lines.len(),
{
    if lines.len() == 0 {
        0
    } else if cells(lines.last()) > widest(lines.drop_last()) {
        cells(lines.last())
    } else {
        widest(lines.drop_last())
    }
}

/// The width to which the lines of a text are aligned: the greater of the
/// width asked for and that of the widest line; the latter where none is
/// asked for (zero); and one column where that leaves none.
pub open spec fn target_width(width: nat, lines: Seq<Seq<char>>) -> nat {
    let most = if width > widest(lines) {
        width
    } else {
        widest(lines)
    };
    if most == 0 {
        1
    } else {
        most
    }
}

fn target(width: usize, all: &Vec<Vec<char>>) -> (r: usize)
    ensures
        r == target_width(width as nat, views(all@)),
{
    let ghost ls = views(all@);
    let mut most: usize = 0;
    let mut i: usize = 0;
    assert(ls.take(0) =~= Seq::<Seq<char>>::empty());
    while i < all.len()
        invariant
            i <= all.len(),
            ls == views(all@),
            most == widest(ls.take(i as int)),
        decreases all.len() - i,
    {
        let w = width_of(&all[i]);
        proof {
            let next = ls.take(i + 1);
            assert(next.drop_last() =~= ls.take(i as int));
            assert(next.last() == all@[i as int]@);
        }
        if w > most {
            most = w;
        }
        i += 1;
    }
    assert(ls.take(all.len() as int) =~= ls);
    if width > most {
        most = width;
    }
    if most == 0 {
        1
    } else {
        most
    }
}

/// The text with the leading whitespace of every line taken off.
pub open spec fn left_text(s: Seq<char>) -> Seq<char> {
    let ls = text_lines(s);
    joined(Seq::new(ls.len(), |i: int| trimmed_start(ls[i])), nl())
}

/// The lines without their trailing whitespace.
pub open spec fn right_lines(s: Seq<char>) -> Seq<Seq<char>> {
    let ls = text_lines(s);
    Seq::new(ls.len(), |i: int| trimmed_end(ls[i]))
}

/// The text with every line, without its trailing whitespace, padded on
/// the left to the target width.
pub open spec fn right_text(s: Seq<char>, width: nat) -> Seq<char> {
    let ls = right_lines(s);
    let w = target_width(width, ls);
    joined(Seq::new(ls.len(), |i: int| right_aligned(ls[i], w)), nl())
}

/// The text with every line that is not blank trimmed and padded on both
/// sides to the target width.
pub open spec fn center_text(s: Seq<char>, width: nat) -> Seq<char> {
    let ls = kept_lines(text_lines(s));
    let w = target_width(width, ls);
    joined(Seq::new(ls.len(), |i: int| centered(ls[i], w)), nl())
}

/// The text with every line, without its leading whitespace, cut to
/// `width` columns.
pub open spec fn truncate_text(s: Seq<char>, width: nat, use_ellipsis: bool) -> Seq<char> {
    let ls = text_lines(s);
    joined(Seq::new(ls.len(), |i: int| truncated(trimmed_start(ls[i]), width, use_ellipsis)), nl())
}

/// The text, with every line trimmed, wrapped to `width` columns.
pub open spec fn wrap_text(s: Seq<char>, width: usize) -> Seq<char> {
    let ls = text_lines(s);
    joined(wrapped(joined(Seq::new(ls.len(), |i: int| trimmed(ls[i])), nl()), width), nl())
}

/// The characters of `v` with the leading whitespace of every line taken
/// off.
pub fn left_chars(v: &Vec<char>) -> (r: Vec<char>)
    ensures
        r@ == left_text(v@),
{
    let all = lines(v);
    let mut out: Vec<Vec<char>> = Vec::new();
    let mut i: usize = 0;
    while i < all.len()
        invariant
            i <= all.len(),
            out.len() == i,
            forall|k: int| 0 <= k < i ==> out@[k]@ == trimmed_start(all@[k]@),
        decreases all.len() - i,
    {
        out.push(trim_start(&all[i]));
        i += 1;
    }
    let ghost ls = text_lines(v@);
    assert(views(out@) =~= Seq::new(ls.len(), |i: int| trimmed_start(ls[i])));
    join(&out, &newline())
}

/// The characters of `v` with every line padded on the left to the target
/// width.
pub fn right_chars(v: &Vec<char>, width: usize) -> (r: Vec<char>)
    ensures
        r@ == right_text(v@, width as nat),
{
    let all = lines(v);
    let mut ends: Vec<Vec<char>> = Vec::new();
    let mut i: usize = 0;
    while i < all.len()
        invariant
            i <= all.len(),
            ends.len() == i,
            forall|k: int| 0 <= k < i ==> ends@[k]@ == trimmed_end(all@[k]@),
        decreases all.len() - i,
    {
        ends.push(trim_end(&all[i]));
        i += 1;
    }
    assert(views(ends@) =~= right_lines(v@));
    let w = target(width, &ends);
    let mut out: Vec<Vec<char>> = Vec::new();
    let mut j: usize = 0;
    while j < ends.len()
        invariant
            j <= ends.len(),
            out.len() == j,
            forall|k: int| 0 <= k < j ==> out@[k]@ == right_aligned(ends@[k]@, w as nat),
        decreases ends.len() - j,
    {
        out.push(align_right(&ends[j], w));
        j += 1;
    }
    let ghost ls = right_lines(v@);
    assert(views(out@) =~= Seq::new(ls.len(), |i: int| right_aligned(ls[i], w as nat)));
    join(&out, &newline())
}

/// The characters of `v` with every line that is not blank trimmed and
/// centred at the target width.
pub fn center_chars(v: &Vec<char>, width: usize) -> (r: Vec<char>)
    ensures
        r@ == center_text(v@, width as nat),
{
    let kept = clean_lines(v);
    let w = target(width, &kept);
    let mut out: Vec<Vec<char>> = Vec::new();
    let mut j: usize = 0;
    while j < kept.len()
        invariant
            j <= kept.len(),
            out.len() == j,
            forall|k: int| 0 <= k < j ==> out@[k]@ == centered(kept@[k]@, w as nat),
        decreases kept.len() - j,
    {
        out.push(align_center(&kept[j], w));
        j += 1;
    }
    let ghost ls = kept_lines(text_lines(v@));
    assert(views(out@) =~= Seq::new(ls.len(), |i: int| centered(ls[i], w as nat)));
    join(&out, &newline())
}

/// The characters of `v` with every line, without its leading whitespace,
/// cut to `width` columns.
pub fn truncate_lines(v: &Vec<char>, width: usize, use_ellipsis: bool) -> (r: Vec<char>)
    ensures
        r@ == truncate_text(v@, width as nat, use_ellipsis),
{
    let all = lines(v);
    let mut out: Vec<Vec<char>> = Vec::new();
    let mut i: usize = 0;
    while i < all.len()
        invariant
            i <= all.len(),
            out.len() == i,
            forall|k: int|
                0 <= k < i ==> out@[k]@ == truncated(
                    trimmed_start(all@[k]@),
                    width as nat,
                    use_ellipsis,
                ),
        decreases all.len() - i,
    {
        let line = trim_start(&all[i]);
        out.push(truncate_chars(&line, width, use_ellipsis));
        i += 1;
    }
    let ghost ls = text_lines(v@);
    assert(views(out@) =~= Seq::new(
        ls.len(),
        |i: int| truncated(trimmed_start(ls[i]), width as nat, use_ellipsis),
    ));
    join(&out, &newline())
}

/// The characters of `v`, with every line trimmed, wrapped to `width`
/// columns.
pub fn wrap_lines(v: &Vec<char>, width: usize) -> (r: Vec<char>)
    ensures
        r@ == wrap_text(v@, width),
{
    let all = lines(v);
    let mut out: Vec<Vec<char>> = Vec::new();
    let mut i: usize = 0;
    while i < all.len()
        invariant
            i <= all.len(),
            out.len() == i,
            forall|k: int| 0 <= k < i ==> out@[k]@ == trimmed(all@[k]@),
        decreases all.len() - i,
    {
        out.push(trim(&all[i]));
        i += 1;
    }
    let ghost ls = text_lines(v@);
    assert(views(out@) =~= Seq::new(ls.len(), |i: int| trimmed(ls[i])));
    let flat = join(&out, &newline());
    let wrapped_lines = wrap_chars(&flat, width);
    join(&wrapped_lines, &newline())
}

} // verus!
