//! Numbers in cells: the text that is read as a number, the form in which a
//! number is shown, and the widths given in a row of limits.
//!
//! Whether a text is a number, and how the number reads in plain decimal
//! notation, is decided outside this library, which works in integers and
//! characters only. What comes in from there is a *reading*: `Some` plain
//! rendering of the number, with `.` as the decimal point, or `None` where
//! the text is no number.
use crate::chars::{
    extend, find, first_match, lemma_first_match, lemma_matches_single, slice,
};
use vstd::prelude::*;

verus! {

/// `s` without the characters equal to `thousand`, and with `.` in place
/// of each remaining character equal to `decimal`.
pub open spec fn normalized(s: Seq<char>, thousand: char, decimal: char) -> Seq<char>
    decreases s.len(),
{
    if s.len() == 0 {
        Seq::empty()
    } else if s.last() == thousand {
        normalized(s.drop_last(), thousand, decimal)
    } else if s.last() == decimal {
        normalized(s.drop_last(), thousand, decimal).push('.')
    } else {
        normalized(s.drop_last(), thousand, decimal).push(s.last())
    }
}

/// The text to read as a number: `v` without thousands separators and with
/// `.` as the decimal point.
pub fn normalize(v: &Vec<char>, thousand: char, decimal: char) -> (r: Vec<char>)
    ensures
        r@ == normalized(v@, thousand, decimal),
{
    let mut r: Vec<char> = Vec::new();
    let mut i: usize = 0;
    assert(v@.take(0) =~= Seq::<char>::empty());
    while i < v.len()
        invariant
            i <= v.len(),
            r@ == normalized(v@.take(i as int), thousand, decimal),
        decreases v.len() - i,
    {
        let c = v[i];
        assert(v@.take(i + 1).drop_last() =~= v@.take(i as int));
        if c == thousand {
        } else if c == decimal {
            r.push('.');
        } else {
            r.push(c);
        }
        i += 1;
    }
    assert(v@.take(v.len() as int) =~= v@);
    r
}

/// `d` with `sep` between its groups of three characters, counted from
/// the right.
pub open spec fn group3(d: Seq<char>, sep: char) -> Seq<char>
    decreases d.len(),
{
    if d.len() <= 3 {
        d
    } else {
        group3(d.take(d.len() - 3), sep).push(sep) + d.skip(d.len() - 3)
    }
}

/// The whole part of a number with its digits in groups of three; a
/// leading minus sign stands before the first group.
pub open spec fn grouped(whole: Seq<char>, sep: char) -> Seq<char> {
    if whole.len() > 0 && whole[0] == '-' {
        seq!['-'] + group3(whole.drop_first(), sep)
    } else {
        group3(whole, sep)
    }
}

/// The first `i` characters of `d` as they stand in `group3(d, sep)`: a
/// separator comes before each character whose distance from the end is a
/// multiple of three, but for the first.
spec fn group3_head(d: Seq<char>, sep: char, i: int) -> Seq<char>
    decreases i,
{
    if i <= 0 {
        Seq::empty()
    } else if i > 1 && (d.len() - (i - 1)) % 3 == 0 {
        group3_head(d, sep, i - 1).push(sep).push(d[i - 1])
    } else {
        group3_head(d, sep, i - 1).push(d[i - 1])
    }
}

proof fn lemma_group3_head_shorter(d: Seq<char>, sep: char, i: int)
    requires
        d.len() > 3,
        0 <= i <= d.len() - 3,
    ensures
        group3_head(d, sep, i) == group3_head(d.take(d.len() - 3), sep, i),
    decreases i,
{
    if i > 0 {
        lemma_group3_head_shorter(d, sep, i - 1);
    }
}

/// Taken to the end, the head is the grouped text.
proof fn lemma_group3_head_all(d: Seq<char>, sep: char)
    ensures
        group3_head(d, sep, d.len() as int) == group3(d, sep),
    decreases d.len(),
{
    let n = d.len() as int;
    if n <= 3 {
        assert(group3_head(d, sep, 0) =~= Seq::<char>::empty());
        if n >= 1 {
            assert(group3_head(d, sep, 1) =~= seq![d[0]]);
        }
        if n >= 2 {
            assert(group3_head(d, sep, 2) =~= seq![d[0], d[1]]);
        }
        if n >= 3 {
            assert(group3_head(d, sep, 3) =~= seq![d[0], d[1], d[2]]);
        }
        assert(group3_head(d, sep, n) =~= d);
    } else {
        let short = d.take(n - 3);
        lemma_group3_head_all(short, sep);
        lemma_group3_head_shorter(d, sep, n - 3);
        let a = group3_head(d, sep, n - 3);
        assert(group3_head(d, sep, n - 2) == a.push(sep).push(d[n - 3]));
        assert(group3_head(d, sep, n - 1) == group3_head(d, sep, n - 2).push(d[n - 2]));
        assert(group3_head(d, sep, n) == group3_head(d, sep, n - 1).push(d[n - 1]));
        assert(group3_head(d, sep, n) =~= a.push(sep) + d.skip(n - 3));
    }
}

/// Appends to `out` the characters `d[from..]` in groups of three, counted
/// from the right.
fn extend_group3(out: &mut Vec<char>, d: &Vec<char>, from: usize, sep: char)
    requires
        from <= d.len(),
    ensures
        final(out)@ == old(out)@ + group3(d@.skip(from as int), sep),
{
    let ghost body = d@.skip(from as int);
    let n: usize = d.len() - from;
    let mut i: usize = 0;
    while i < n
        invariant
            i <= n,
            n == d.len() - from,
            body == d@.skip(from as int),
            out@ == old(out)@ + group3_head(body, sep, i as int),
        decreases n - i,
    {
        if i > 0 && (n - i) % 3 == 0 {
            out.push(sep);
        }
        out.push(d[from + i]);
        assert(body[i as int] == d@[from + i]);
        assert(out@ =~= old(out)@ + group3_head(body, sep, i + 1));
        i += 1;
    }
    proof {
        lemma_group3_head_all(body, sep);
    }
}

/// The form in which a number is shown. `rendered` is the number in plain
/// decimal notation. The part before the first `.` is the whole part: with
/// `group` set, its digits stand in groups of three, with `thousand`
/// between them. Where something follows the `.`, the character `decimal`
/// and that fraction follow the whole part.
pub open spec fn number_text(
    rendered: Seq<char>,
    group: bool,
    thousand: char,
    decimal: char,
) -> Seq<char> {
    let dot = first_match(rendered, seq!['.'], 0);
    let whole = rendered.take(dot);
    let head = if group {
        grouped(whole, thousand)
    } else {
        whole
    };
    if dot + 1 < rendered.len() {
        head.push(decimal) + rendered.skip(dot + 1)
    } else {
        head
    }
}

/// The form in which the number `rendered` is shown.
pub fn format_number(
    rendered: &Vec<char>,
    group: bool,
    thousand: char,
    decimal: char,
) -> (r: Vec<char>)
    ensures
        r@ == number_text(rendered@, group, thousand, decimal),
{
    let mut point: Vec<char> = Vec::new();
    point.push('.');
    assert(point@ =~= seq!['.']);
    let dot = find(rendered, &point, 0);
    let whole = slice(rendered, 0, dot);
    assert(whole@ =~= rendered@.take(dot as int));
    let mut r: Vec<char> = Vec::new();
    if group {
        if whole.len() > 0 && whole[0] == '-' {
            r.push('-');
            extend_group3(&mut r, &whole, 1, thousand);
            assert(whole@.skip(1) =~= whole@.drop_first());
            assert(r@ =~= grouped(whole@, thousand));
        } else {
            extend_group3(&mut r, &whole, 0, thousand);
            assert(whole@.skip(0) =~= whole@);
            assert(r@ =~= grouped(whole@, thousand));
        }
    } else {
        extend(&mut r, &whole);
        assert(r@ =~= whole@);
    }
    if dot < rendered.len() && dot + 1 < rendered.len() {
        r.push(decimal);
        let fraction = slice(rendered, dot + 1, rendered.len());
        assert(fraction@ =~= rendered@.skip(dot + 1));
        extend(&mut r, &fraction);
    }
    r
}

/// Whether `c` is one of the ten decimal digits.
pub open spec fn is_digit(c: char) -> bool {
    '0' <= c <= '9'
}

/// The value of the decimal digit `c`.
pub open spec fn digit_value(c: char) -> nat {
    (c as u32 - '0' as u32) as nat
}

/// Whether `s` is made of decimal digits only.
pub open spec fn all_digits(s: Seq<char>) -> bool {
    forall|i: int| 0 <= i < s.len() ==> is_digit(#[trigger] s[i])
}

/// The number that the decimal digits of `s` write.
pub open spec fn digits_value(s: Seq<char>) -> nat
    decreases s.len(),
{
    if s.len() == 0 {
        0
    } else {
        digits_value(s.drop_last()) * 10 + digit_value(s.last())
    }
}

/// The number that `s` writes: one or more decimal digits, after an
/// optional plus sign. Any other text writes none.
pub open spec fn unsigned_value(s: Seq<char>) -> Option<nat> {
    let body = if s.len() > 0 && s[0] == '+' {
        s.drop_first()
    } else {
        s
    };
    if body.len() > 0 && all_digits(body) {
        Some(digits_value(body))
    } else {
        None
    }
}

/// The number that `s` writes, where it writes one that a `usize` holds.
pub open spec fn usize_value(s: Seq<char>) -> Option<usize> {
    match unsigned_value(s) {
        Some(n) => if n <= usize::MAX {
            Some(n as usize)
        } else {
            None
        },
        None => None,
    }
}

/// More digits do not write a smaller number.
proof fn lemma_digits_value_grows(s: Seq<char>, k: int)
    requires
        0 <= k <= s.len(),
    ensures
        digits_value(s.take(k)) <= digits_value(s),
    decreases s.len() - k,
{
    if k == s.len() {
        assert(s.take(k) =~= s);
    } else {
        lemma_digits_value_grows(s, k + 1);
        assert(s.take(k + 1).drop_last() =~= s.take(k));
    }
}

/// Reads `v` as an unsigned decimal number.
pub fn parse_usize(v: &Vec<char>) -> (r: Option<usize>)
    ensures
        r == usize_value(v@),
{
    let start: usize = if v.len() > 0 && v[0] == '+' {
        1
    } else {
        0
    };
    let ghost body = v@.skip(start as int);
    assert(body =~= if v@.len() > 0 && v@[0] == '+' {
        v@.drop_first()
    } else {
        v@
    });
    if start == v.len() {
        return None;
    }
    let n: usize = v.len() - start;
    let mut value: usize = 0;
    let mut i: usize = 0;
    assert(body.take(0) =~= Seq::<char>::empty());
    while i < n
        invariant
            i <= n,
            n == v.len() - start,
            n == body.len(),
            body == v@.skip(start as int),
            unsigned_value(v@) == (if all_digits(body) {
                Some(digits_value(body))
            } else {
                None::<nat>
            }),
            all_digits(body.take(i as int)),
            value == digits_value(body.take(i as int)),
        decreases n - i,
    {
        let c = v[start + i];
        assert(body[i as int] == c);
        if c < '0' || c > '9' {
            assert(!is_digit(body[i as int]));
            return None;
        }
        let d: usize = (c as u32 - '0' as u32) as usize;
        proof {
            assert(body.take(i + 1).drop_last() =~= body.take(i as int));
            assert(body.take(i + 1).last() == c);
            assert forall|k: int| 0 <= k < i + 1 implies is_digit(
                #[trigger] body.take(i + 1)[k],
            ) by {
                if k < i {
                    assert(body.take(i as int)[k] == body.take(i + 1)[k]);
                }
            }
        }
        if value > (usize::MAX - d) / 10 {
            proof {
                lemma_digits_value_grows(body, i + 1);
                assert(digit_value(c) == d);
                assert(digits_value(body.take(i + 1)) == value * 10 + d);
                assert(value * 10 + d > usize::MAX);
            }
            return None;
        }
        value = value * 10 + d;
        i += 1;
    }
    assert(body.take(n as int) =~= body);
    Some(value)
}


/// Whether the character `c` stands nowhere in `s`.
pub open spec fn free_of(s: Seq<char>, c: char) -> bool {
    forall|i: int| 0 <= i < s.len() ==> #[trigger] s[i] != c
}

/// Two texts side by side are normalized part by part.
pub proof fn lemma_normalized_concat(a: Seq<char>, b: Seq<char>, thousand: char, decimal: char)
    ensures
        normalized(a + b, thousand, decimal) == normalized(a, thousand, decimal) + normalized(
            b,
            thousand,
            decimal,
        ),
    decreases b.len(),
{
    if b.len() == 0 {
        assert(a + b =~= a);
        assert(normalized(a, thousand, decimal) + normalized(b, thousand, decimal) =~= normalized(
            a,
            thousand,
            decimal,
        ));
    } else {
        lemma_normalized_concat(a, b.drop_last(), thousand, decimal);
        assert((a + b).drop_last() =~= a + b.drop_last());
        let x = normalized(a, thousand, decimal);
        let y = normalized(b.drop_last(), thousand, decimal);
        assert((x + y).push('.') =~= x + y.push('.'));
        assert((x + y).push(b.last()) =~= x + y.push(b.last()));
    }
}

/// A text without thousands separators, and with no decimal separator
/// other than `.`, is normalized already.
pub proof fn lemma_normalized_plain(s: Seq<char>, thousand: char, decimal: char)
    requires
        free_of(s, thousand),
        decimal != '.' ==> free_of(s, decimal),
    ensures
        normalized(s, thousand, decimal) == s,
    decreases s.len(),
{
    if s.len() > 0 {
        let init = s.drop_last();
        assert forall|i: int| 0 <= i < init.len() implies #[trigger] init[i] != thousand by {
            assert(init[i] == s[i]);
        }
        if decimal != '.' {
            assert forall|i: int| 0 <= i < init.len() implies #[trigger] init[i] != decimal by {
                assert(init[i] == s[i]);
            }
        }
        lemma_normalized_plain(init, thousand, decimal);
        assert(s.last() == s[s.len() - 1]);
        assert(init.push(s.last()) =~= s);
    } else {
        assert(normalized(s, thousand, decimal) =~= s);
    }
}

/// Normalizing takes the thousands separators out of grouped digits.
proof fn lemma_normalized_group3(d: Seq<char>, thousand: char, decimal: char)
    requires
        thousand != decimal,
        free_of(d, thousand),
        decimal != '.' ==> free_of(d, decimal),
    ensures
        normalized(group3(d, thousand), thousand, decimal) == d,
    decreases d.len(),
{
    if d.len() <= 3 {
        lemma_normalized_plain(d, thousand, decimal);
    } else {
        let n = d.len() as int;
        let head = d.take(n - 3);
        let tail = d.skip(n - 3);
        assert forall|i: int| 0 <= i < head.len() implies #[trigger] head[i] != thousand by {
            assert(head[i] == d[i]);
        }
        assert forall|i: int| 0 <= i < tail.len() implies #[trigger] tail[i] != thousand by {
            assert(tail[i] == d[i + n - 3]);
        }
        if decimal != '.' {
            assert forall|i: int| 0 <= i < head.len() implies #[trigger] head[i] != decimal by {
                assert(head[i] == d[i]);
            }
            assert forall|i: int| 0 <= i < tail.len() implies #[trigger] tail[i] != decimal by {
                assert(tail[i] == d[i + n - 3]);
            }
        }
        lemma_normalized_group3(head, thousand, decimal);
        lemma_normalized_plain(tail, thousand, decimal);
        let g = group3(head, thousand);
        lemma_normalized_concat(g.push(thousand), tail, thousand, decimal);
        assert(g.push(thousand).drop_last() =~= g);
        assert(head + tail =~= d);
    }
}

/// The whole part of a rendering: what stands before the first `.`.
pub open spec fn whole_part(rendered: Seq<char>) -> Seq<char> {
    rendered.take(first_match(rendered, seq!['.'], 0))
}

/// The fraction of a rendering: what stands after the first `.`.
pub open spec fn fraction_part(rendered: Seq<char>) -> Seq<char> {
    let dot = first_match(rendered, seq!['.'], 0);
    if dot + 1 < rendered.len() {
        rendered.skip(dot + 1)
    } else {
        Seq::empty()
    }
}

/// The form in which a number is shown reads as the number again: without
/// the thousands separators and with `.` for the decimal separator it is
/// the plain rendering that it was made from. This holds where the two
/// separators differ, neither the whole part nor the fraction of the
/// rendering holds a thousands separator (which may be `.`), the
/// rendering holds no decimal separator other than `.`, and it does not
/// end with `.`.
pub proof fn lemma_number_round_trip(
    rendered: Seq<char>,
    group: bool,
    thousand: char,
    decimal: char,
)
    requires
        thousand != decimal,
        free_of(whole_part(rendered), thousand),
        free_of(fraction_part(rendered), thousand),
        decimal != '.' ==> free_of(rendered, decimal),
        rendered.len() > 0 ==> rendered.last() != '.',
    ensures
        normalized(number_text(rendered, group, thousand, decimal), thousand, decimal) == rendered,
{
    let dot = first_match(rendered, seq!['.'], 0);
    lemma_first_match(rendered, seq!['.'], 0);
    let whole = rendered.take(dot);
    if decimal != '.' {
        assert forall|i: int| 0 <= i < whole.len() implies #[trigger] whole[i] != decimal by {
            assert(whole[i] == rendered[i]);
        }
    }
    let head = if group {
        grouped(whole, thousand)
    } else {
        whole
    };
    assert(normalized(head, thousand, decimal) == whole) by {
        if group {
            if whole.len() > 0 && whole[0] == '-' {
                let rest = whole.drop_first();
                assert forall|i: int| 0 <= i < rest.len() implies #[trigger] rest[i]
                    != thousand by {
                    assert(rest[i] == whole[i + 1]);
                }
                if decimal != '.' {
                    assert forall|i: int| 0 <= i < rest.len() implies #[trigger] rest[i]
                        != decimal by {
                        assert(rest[i] == whole[i + 1]);
                    }
                }
                lemma_normalized_group3(rest, thousand, decimal);
                lemma_normalized_concat(seq!['-'], group3(rest, thousand), thousand, decimal);
                assert(seq!['-'][0] == whole[0]);
                assert(free_of(seq!['-'], thousand));
                assert(decimal != '.' ==> free_of(seq!['-'], decimal));
                lemma_normalized_plain(seq!['-'], thousand, decimal);
                assert(seq!['-'] + rest =~= whole);
            } else {
                lemma_normalized_group3(whole, thousand, decimal);
            }
        } else {
            lemma_normalized_plain(whole, thousand, decimal);
        }
    }
    if dot + 1 < rendered.len() {
        let fraction = rendered.skip(dot + 1);
        if decimal != '.' {
            assert forall|i: int| 0 <= i < fraction.len() implies #[trigger] fraction[i]
                != decimal by {
                assert(fraction[i] == rendered[i + dot + 1]);
            }
        }
        lemma_normalized_plain(fraction, thousand, decimal);
        lemma_normalized_concat(head.push(decimal), fraction, thousand, decimal);
        assert(head.push(decimal).drop_last() =~= head);
        lemma_matches_single(rendered, '.', dot);
        assert(whole.push('.') + fraction =~= rendered);
    } else {
        if dot < rendered.len() {
            lemma_matches_single(rendered, '.', dot);
            assert(rendered.last() == rendered[dot]);
        }
        assert(whole =~= rendered);
    }
}

} // verus!
