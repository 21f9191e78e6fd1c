//! Sequences of characters: conversion from and to strings, whitespace,
//! trimming, splitting on a literal separator, lines and joining.
use vstd::prelude::*;

verus! {

/// `String::push`: the character is appended at the end.
pub assume_specification[ String::push ](s: &mut String, c: char)
    ensures
        final(s)@ == old(s)@.push(c),
;

/// The views of a vector of character vectors.
pub open spec fn views(v: Seq<Vec<char>>) -> Seq<Seq<char>> {
    Seq::new(v.len(), |i: int| v[i]@)
}

/// The views of a vector of strings.
pub open spec fn texts(v: Seq<String>) -> Seq<Seq<char>> {
    Seq::new(v.len(), |i: int| v[i]@)
}

/// The characters of a string, in order.
pub fn to_chars(s: &str) -> (v: Vec<char>)
    ensures
        v@ == s@,
{
    let mut v: Vec<char> = Vec::new();
    for c in it: s.chars()
        invariant
            v@ == it.seq().take(it.index() as int),
            it.seq() == s@,
    {
        v.push(c);
    }
    v
}

/// The string made of the given characters.
pub fn to_text(v: &Vec<char>) -> (s: String)
    ensures
        s@ == v@,
{
    let mut s = String::new();
    let mut i: usize = 0;
    while i < v.len()
        invariant
            i <= v.len(),
            s@ == v@.take(i as int),
        decreases v.len() - i,
    {
        s.push(v[i]);
        i += 1;
    }
    s
}

/// The strings made of the given character vectors.
pub fn to_texts(v: &Vec<Vec<char>>) -> (r: Vec<String>)
    ensures
        texts(r@) == views(v@),
{
    let mut r: Vec<String> = Vec::new();
    let mut i: usize = 0;
    while i < v.len()
        invariant
            i <= v.len(),
            r.len() == i,
            forall|k: int| 0 <= k < i ==> r@[k]@ == v@[k]@,
        decreases v.len() - i,
    {
        r.push(to_text(&v[i]));
        i += 1;
    }
    assert(texts(r@) =~= views(v@));
    r
}

/// A copy of `v[lo..hi]`.
pub(crate) fn slice(v: &Vec<char>, lo: usize, hi: usize) -> (r: Vec<char>)
    requires
        lo <= hi <= v.len(),
    ensures
        r@ == v@.subrange(lo as int, hi as int),
{
    let mut r: Vec<char> = Vec::new();
    let mut i: usize = lo;
    while i < hi
        invariant
            lo <= i <= hi <= v.len(),
            r@ == v@.subrange(lo as int, i as int),
        decreases hi - i,
    {
        r.push(v[i]);
        i += 1;
    }
    r
}

/// Appends the characters of `tail` to `out`.
pub fn extend(out: &mut Vec<char>, tail: &Vec<char>)
    ensures
        final(out)@ == old(out)@ + tail@,
{
    let mut i: usize = 0;
    while i < tail.len()
        invariant
            i <= tail.len(),
            out@ == old(out)@ + tail@.take(i as int),
        decreases tail.len() - i,
    {
        out.push(tail[i]);
        i += 1;
    }
}

/// `n` copies of `c`.
pub open spec fn repeated(c: char, n: nat) -> Seq<char> {
    Seq::new(n, |i: int| c)
}

/// Appends `n` copies of `c` to `out`.
pub fn extend_repeated(out: &mut Vec<char>, c: char, n: usize)
    ensures
        final(out)@ == old(out)@ + repeated(c, n as nat),
{
    let mut i: usize = 0;
    while i < n
        invariant
            i <= n,
            out@ == old(out)@ + repeated(c, i as nat),
        decreases n - i,
    {
        out.push(c);
        i += 1;
        assert(out@ =~= old(out)@ + repeated(c, i as nat));
    }
}

/// The code points with the Unicode property White_Space.
pub open spec fn is_space(c: char) -> bool {
    let u = c as u32;
    ||| 0x09 <= u <= 0x0D
    ||| u == 0x20
    ||| u == 0x85
    ||| u == 0xA0
    ||| u == 0x1680
    ||| 0x2000 <= u <= 0x200A
    ||| u == 0x2028
    ||| u == 0x2029
    ||| u == 0x202F
    ||| u == 0x205F
    ||| u == 0x3000
}

/// Whether `c` is whitespace.
pub fn is_whitespace(c: char) -> (r: bool)
    ensures
        r == is_space(c),
{
    let u: u32 = c as u32;
    (0x09 <= u && u <= 0x0D) || u == 0x20 || u == 0x85 || u == 0xA0 || u == 0x1680 || (0x2000 <= u
        && u <= 0x200A) || u == 0x2028 || u == 0x2029 || u == 0x202F || u == 0x205F || u == 0x3000
}

/// What `str::to_uppercase` returns for `s`: the text in upper case, by
/// the case mappings of Unicode.
pub uninterp spec fn uppercased(s: Seq<char>) -> Seq<char>;

/// Calls `str::to_uppercase`. The result is named `uppercased`; nothing
/// more is stated of it.
#[verifier::external_body]
pub(crate) fn upper_str(text: &str) -> (r: String)
    ensures
        r@ == uppercased(text@),
{
    text.to_uppercase()
}

/// `s` without its leading whitespace.
pub open spec fn trimmed_start(s: Seq<char>) -> Seq<char>
    decreases s.len(),
{
    if s.len() > 0 && is_space(s[0]) {
        trimmed_start(s.drop_first())
    } else {
        s
    }
}

/// `s` without its trailing whitespace.
pub open spec fn trimmed_end(s: Seq<char>) -> Seq<char>
    decreases s.len(),
{
    if s.len() > 0 && is_space(s.last()) {
        trimmed_end(s.drop_last())
    } else {
        s
    }
}

/// `s` without its leading and trailing whitespace.
pub open spec fn trimmed(s: Seq<char>) -> Seq<char> {
    trimmed_end(trimmed_start(s))
}

/// Where the first `k` characters are whitespace and the next one is not,
/// trimming the start skips exactly `k` characters.
pub proof fn lemma_trimmed_start_is_skip(s: Seq<char>, k: int)
    requires
        0 <= k <= s.len(),
        forall|i: int| 0 <= i < k ==> is_space(#[trigger] s[i]),
        k < s.len() ==> !is_space(s[k]),
    ensures
        trimmed_start(s) == s.skip(k),
    decreases k,
{
    if k == 0 {
        assert(s.skip(0) =~= s);
    } else {
        let t = s.drop_first();
        assert forall|i: int| 0 <= i < k - 1 implies is_space(#[trigger] t[i]) by {
            assert(t[i] == s[i + 1]);
        }
        lemma_trimmed_start_is_skip(t, k - 1);
        assert(t.skip(k - 1) =~= s.skip(k));
    }
}

/// Where the characters from `k` on are whitespace and the one before is
/// not, trimming the end keeps exactly the first `k` characters.
pub proof fn lemma_trimmed_end_is_take(s: Seq<char>, k: int)
    requires
        0 <= k <= s.len(),
        forall|i: int| k <= i < s.len() ==> is_space(#[trigger] s[i]),
        k > 0 ==> !is_space(s[k - 1]),
    ensures
        trimmed_end(s) == s.take(k),
    decreases s.len() - k,
{
    if k == s.len() {
        assert(s.take(k) =~= s);
    } else {
        let t = s.drop_last();
        lemma_trimmed_end_is_take(t, k);
        assert(t.take(k) =~= s.take(k));
    }
}

/// `v` without its leading whitespace.
pub fn trim_start(v: &Vec<char>) -> (r: Vec<char>)
    ensures
        r@ == trimmed_start(v@),
{
    let mut lo: usize = 0;
    while lo < v.len() && is_whitespace(v[lo])
        invariant
            lo <= v.len(),
            forall|i: int| 0 <= i < lo ==> is_space(#[trigger] v@[i]),
        decreases v.len() - lo,
    {
        lo += 1;
    }
    proof {
        lemma_trimmed_start_is_skip(v@, lo as int);
    }
    slice(v, lo, v.len())
}

/// `v` without its trailing whitespace.
pub fn trim_end(v: &Vec<char>) -> (r: Vec<char>)
    ensures
        r@ == trimmed_end(v@),
{
    let mut hi: usize = v.len();
    while hi > 0 && is_whitespace(v[hi - 1])
        invariant
            hi <= v.len(),
            forall|i: int| hi <= i < v.len() ==> is_space(#[trigger] v@[i]),
        decreases hi,
    {
        hi -= 1;
    }
    proof {
        lemma_trimmed_end_is_take(v@, hi as int);
    }
    slice(v, 0, hi)
}

/// `v` without its leading and trailing whitespace.
pub fn trim(v: &Vec<char>) -> (r: Vec<char>)
    ensures
        r@ == trimmed(v@),
{
    let start = trim_start(v);
    trim_end(&start)
}

/// What is left after trimming the start does not begin with whitespace,
/// and it ends as the text did.
pub proof fn lemma_trimmed_start_clean(s: Seq<char>)
    ensures
        trimmed_start(s).len() == 0 || !is_space(trimmed_start(s)[0]),
        trimmed_start(s).len() <= s.len(),
        trimmed_start(s) == s.skip(s.len() - trimmed_start(s).len()),
    decreases s.len(),
{
    if s.len() > 0 && is_space(s[0]) {
        let t = s.drop_first();
        lemma_trimmed_start_clean(t);
        assert(t.skip(t.len() - trimmed_start(t).len())
            =~= s.skip(s.len() - trimmed_start(t).len()));
    } else {
        assert(s.skip(0) =~= s);
    }
}

/// What is left after trimming the end does not end with whitespace, and
/// it begins as the text did.
pub proof fn lemma_trimmed_end_clean(s: Seq<char>)
    ensures
        trimmed_end(s).len() == 0 || !is_space(trimmed_end(s).last()),
        trimmed_end(s).len() <= s.len(),
        trimmed_end(s) == s.take(trimmed_end(s).len() as int),
    decreases s.len(),
{
    if s.len() > 0 && is_space(s.last()) {
        let t = s.drop_last();
        lemma_trimmed_end_clean(t);
        assert(t.take(trimmed_end(t).len() as int) =~= s.take(trimmed_end(t).len() as int));
    } else {
        assert(s.take(s.len() as int) =~= s);
    }
}

/// A trimmed text neither begins nor ends with whitespace.
pub proof fn lemma_trimmed_clean(s: Seq<char>)
    ensures
        trimmed(s).len() == 0 || (!is_space(trimmed(s)[0]) && !is_space(trimmed(s).last())),
        trimmed(s).len() <= s.len(),
{
    let a = trimmed_start(s);
    lemma_trimmed_start_clean(s);
    lemma_trimmed_end_clean(a);
    if trimmed(s).len() > 0 {
        assert(trimmed(s)[0] == a.take(trimmed(s).len() as int)[0]);
    }
}

/// Trimming is idempotent: a trimmed text is left as it is by trimming it
/// again.
pub proof fn lemma_trim_idempotent(s: Seq<char>)
    ensures
        trimmed(trimmed(s)) == trimmed(s),
{
    lemma_trimmed_clean(s);
}


/// Whether `pat` stands in `s` at index `i`.
pub open spec fn matches_at(s: Seq<char>, pat: Seq<char>, i: int) -> bool {
    0 <= i && i + pat.len() <= s.len() && s.subrange(i, i + pat.len()) == pat
}

/// The index of the first place at or after `from` where `pat` stands in
/// `s`, or the length of `s` where there is none.
pub open spec fn first_match(s: Seq<char>, pat: Seq<char>, from: int) -> int
    decreases s.len() - from,
{
    if from < 0 || from >= s.len() || from + pat.len() > s.len() {
        s.len() as int
    } else if matches_at(s, pat, from) {
        from
    } else {
        first_match(s, pat, from + 1)
    }
}

/// The pieces of `s` from index `from` on, between the non-overlapping
/// places where the non-empty `pat` stands, taken from the left.
pub open spec fn split_from(s: Seq<char>, pat: Seq<char>, from: int) -> Seq<Seq<char>>
    decreases s.len() - from,
{
    let p = first_match(s, pat, from);
    if pat.len() == 0 || from < 0 || p < from || p >= s.len() || p + pat.len() > s.len() {
        seq![s.subrange(from, s.len() as int)]
    } else {
        seq![s.subrange(from, p)] + split_from(s, pat, p + pat.len())
    }
}

/// Each character of `s` as a text of its own.
pub open spec fn singles(s: Seq<char>) -> Seq<Seq<char>> {
    Seq::new(s.len(), |i: int| seq![s[i]])
}

/// The fields of `s` between the occurrences of the literal separator
/// `sep`. An empty separator stands between any two characters, before the
/// first and after the last.
pub open spec fn split_fields(s: Seq<char>, sep: Seq<char>) -> Seq<Seq<char>> {
    if sep.len() == 0 {
        seq![Seq::<char>::empty()] + singles(s) + seq![Seq::<char>::empty()]
    } else {
        split_from(s, sep, 0)
    }
}

/// The first match is at or after `from` and within `s`; `pat` stands
/// there unless it is the length of `s`; and `pat` stands nowhere between
/// `from` and it.
pub proof fn lemma_first_match(s: Seq<char>, pat: Seq<char>, from: int)
    requires
        0 <= from <= s.len(),
    ensures
        from <= first_match(s, pat, from) <= s.len(),
        first_match(s, pat, from) < s.len() ==> matches_at(s, pat, first_match(s, pat, from)),
        forall|i: int| from <= i < first_match(s, pat, from) ==> !matches_at(s, pat, i),
        pat.len() > 0 && first_match(s, pat, from) == s.len() ==> forall|i: int|
            from <= i ==> !matches_at(s, pat, i),
    decreases s.len() - from,
{
    if from >= s.len() || from + pat.len() > s.len() {
    } else if matches_at(s, pat, from) {
    } else {
        lemma_first_match(s, pat, from + 1);
    }
}

/// Whether `pat` stands in `v` at index `i`.
pub(crate) fn is_match(v: &Vec<char>, pat: &Vec<char>, i: usize) -> (r: bool)
    requires
        i + pat.len() <= v.len(),
    ensures
        r == matches_at(v@, pat@, i as int),
{
    let mut k: usize = 0;
    while k < pat.len()
        invariant
            k <= pat.len(),
            i + pat.len() <= v.len(),
            forall|j: int| 0 <= j < k ==> v@[i + j] == pat@[j],
        decreases pat.len() - k,
    {
        if v[i + k] != pat[k] {
            proof {
                let sub = v@.subrange(i as int, i + pat.len());
                assert(sub[k as int] == v@[i + k]);
            }
            return false;
        }
        k += 1;
    }
    assert(v@.subrange(i as int, i + pat.len()) =~= pat@);
    true
}

/// The index of the first place at or after `from` where `pat` stands in
/// `v`, or the length of `v`.
pub fn find(v: &Vec<char>, pat: &Vec<char>, from: usize) -> (r: usize)
    ensures
        r == first_match(v@, pat@, from as int),
        r <= v.len(),
        from <= v.len() ==> from <= r,
{
    if from >= v.len() || pat.len() > v.len() {
        return v.len();
    }
    proof {
        lemma_first_match(v@, pat@, from as int);
    }
    if pat.len() == 0 {
        assert(v@.subrange(from as int, from as int) =~= pat@);
        return from;
    }
    let last: usize = v.len() - pat.len();
    let mut i: usize = from;
    while i <= last
        invariant
            from <= i,
            pat.len() > 0,
            last == v.len() - pat.len(),
            first_match(v@, pat@, from as int) == first_match(v@, pat@, i as int),
        decreases last + 1 - i,
    {
        if is_match(v, pat, i) {
            return i;
        }
        i += 1;
    }
    v.len()
}

/// The fields of `v` between the occurrences of the literal separator.
pub fn split(v: &Vec<char>, sep: &Vec<char>) -> (r: Vec<Vec<char>>)
    ensures
        views(r@) == split_fields(v@, sep@),
        r.len() >= 1,
{
    let mut r: Vec<Vec<char>> = Vec::new();
    if sep.len() == 0 {
        r.push(Vec::new());
        let mut i: usize = 0;
        while i < v.len()
            invariant
                i <= v.len(),
                r.len() == i + 1,
                r@[0]@ == Seq::<char>::empty(),
                forall|k: int| 0 <= k < i ==> r@[k + 1]@ == seq![v@[k]],
            decreases v.len() - i,
        {
            let mut one: Vec<char> = Vec::new();
            one.push(v[i]);
            assert(one@ =~= seq![v@[i as int]]);
            r.push(one);
            i += 1;
        }
        r.push(Vec::new());
        assert(views(r@) =~= split_fields(v@, sep@));
        return r;
    }
    let mut start: usize = 0;
    loop
        invariant
            sep.len() > 0,
            start <= v.len(),
            split_from(v@, sep@, 0) == views(r@) + split_from(v@, sep@, start as int),
        decreases v.len() - start,
    {
        let p = find(v, sep, start);
        proof {
            lemma_first_match(v@, sep@, start as int);
        }
        if p >= v.len() {
            let piece = slice(v, start, v.len());
            let ghost before = views(r@);
            r.push(piece);
            assert(views(r@) =~= before + split_from(v@, sep@, start as int));
            return r;
        }
        let piece = slice(v, start, p);
        let ghost before = views(r@);
        r.push(piece);
        assert(views(r@) =~= before + seq![v@.subrange(start as int, p as int)]);
        assert(split_from(v@, sep@, 0) =~= views(r@) + split_from(v@, sep@, p + sep.len()));
        start = p + sep.len();
    }
}

/// `s` without one trailing carriage return.
pub open spec fn without_cr(s: Seq<char>) -> Seq<char> {
    if s.len() > 0 && s.last() == '\r' {
        s.drop_last()
    } else {
        s
    }
}

/// The lines of `s`. A line ends with a line feed or with a carriage
/// return and a line feed; neither belongs to the line. The last line need
/// not be ended, and an empty text has no line.
pub open spec fn text_lines(s: Seq<char>) -> Seq<Seq<char>> {
    let parts = split_from(s, seq!['\n'], 0);
    let ended = Seq::new((parts.len() - 1) as nat, |i: int| without_cr(parts[i]));
    if parts.last().len() == 0 {
        ended
    } else {
        ended.push(parts.last())
    }
}

/// The lines of `v`.
pub fn lines(v: &Vec<char>) -> (r: Vec<Vec<char>>)
    ensures
        views(r@) == text_lines(v@),
{
    let mut nl: Vec<char> = Vec::new();
    nl.push('\n');
    assert(nl@ =~= seq!['\n']);
    let parts = split(v, &nl);
    let ghost ps = split_from(v@, seq!['\n'], 0);
    assert(views(parts@) == ps);
    let mut r: Vec<Vec<char>> = Vec::new();
    let n: usize = parts.len() - 1;
    let mut i: usize = 0;
    while i < n
        invariant
            i <= n,
            n == parts.len() - 1,
            views(parts@) == ps,
            r.len() == i,
            forall|k: int| 0 <= k < i ==> r@[k]@ == without_cr(ps[k]),
        decreases n - i,
    {
        let part = &parts[i];
        assert(part@ == ps[i as int]);
        let line = if part.len() > 0 && part[part.len() - 1] == '\r' {
            slice(part, 0, part.len() - 1)
        } else {
            slice(part, 0, part.len())
        };
        assert(line@ =~= without_cr(ps[i as int]));
        r.push(line);
        i += 1;
    }
    let tail = &parts[n];
    assert(tail@ == ps.last());
    if tail.len() > 0 {
        let line = slice(tail, 0, tail.len());
        assert(line@ =~= ps.last());
        r.push(line);
    }
    assert(views(r@) =~= text_lines(v@));
    r
}

/// The parts in order, with `sep` between any two of them.
pub open spec fn joined(parts: Seq<Seq<char>>, sep: Seq<char>) -> Seq<char>
    decreases parts.len(),
{
    if parts.len() == 0 {
        Seq::empty()
    } else if parts.len() == 1 {
        parts[0]
    } else {
        joined(parts.drop_last(), sep) + sep + parts.last()
    }
}

/// The parts in order, with `sep` between any two of them.
pub fn join(parts: &Vec<Vec<char>>, sep: &Vec<char>) -> (r: Vec<char>)
    ensures
        r@ == joined(views(parts@), sep@),
{
    let mut r: Vec<char> = Vec::new();
    let mut i: usize = 0;
    let ghost all = views(parts@);
    assert(all.take(0) =~= Seq::<Seq<char>>::empty());
    while i < parts.len()
        invariant
            i <= parts.len(),
            all == views(parts@),
            r@ == joined(all.take(i as int), sep@),
        decreases parts.len() - i,
    {
        if i > 0 {
            extend(&mut r, sep);
        }
        extend(&mut r, &parts[i]);
        proof {
            let next = all.take(i + 1);
            assert(next.drop_last() =~= all.take(i as int));
            assert(next.last() == parts@[i as int]@);
            if i == 0 {
                assert(r@ =~= next[0]);
            }
        }
        i += 1;
    }
    assert(all.take(parts.len() as int) =~= all);
    r
}

/// The trimmed forms of the lines that are not blank, in order.
pub open spec fn kept_lines(lines: Seq<Seq<char>>) -> Seq<Seq<char>>
    decreases lines.len(),
{
    if lines.len() == 0 {
        Seq::empty()
    } else {
        let line = trimmed(lines.last());
        if line.len() == 0 {
            kept_lines(lines.drop_last())
        } else {
            kept_lines(lines.drop_last()).push(line)
        }
    }
}

/// `s` with every line trimmed and the blank lines taken out; the lines
/// that stay are joined by single line feeds.
pub open spec fn cleaned(s: Seq<char>) -> Seq<char> {
    joined(kept_lines(text_lines(s)), seq!['\n'])
}

/// The trimmed forms of the lines of `v` that are not blank.
pub fn clean_lines(v: &Vec<char>) -> (r: Vec<Vec<char>>)
    ensures
        views(r@) == kept_lines(text_lines(v@)),
{
    let all = lines(v);
    let ghost ls = views(all@);
    let mut r: Vec<Vec<char>> = Vec::new();
    let mut i: usize = 0;
    assert(ls.take(0) =~= Seq::<Seq<char>>::empty());
    while i < all.len()
        invariant
            i <= all.len(),
            ls == views(all@),
            views(r@) == kept_lines(ls.take(i as int)),
        decreases all.len() - i,
    {
        let line = trim(&all[i]);
        proof {
            let next = ls.take(i + 1);
            assert(next.drop_last() =~= ls.take(i as int));
            assert(next.last() == all@[i as int]@);
        }
        if line.len() > 0 {
            let ghost before = views(r@);
            r.push(line);
            assert(views(r@) =~= before.push(line@));
        }
        i += 1;
    }
    assert(ls.take(all.len() as int) =~= ls);
    r
}

/// `v` with every line trimmed and the blank lines taken out.
pub fn clean_chars(v: &Vec<char>) -> (r: Vec<char>)
    ensures
        r@ == cleaned(v@),
{
    let kept = clean_lines(v);
    let mut nl: Vec<char> = Vec::new();
    nl.push('\n');
    assert(nl@ =~= seq!['\n']);
    join(&kept, &nl)
}


/// Whether no character of `s` is a line feed.
pub open spec fn no_newline(s: Seq<char>) -> bool {
    forall|i: int| 0 <= i < s.len() ==> #[trigger] s[i] != '\n'
}

/// Whether `s` is a line as cleaning leaves it: not empty, trimmed, and
/// without a line feed.
pub open spec fn is_clean_line(s: Seq<char>) -> bool {
    s.len() > 0 && trimmed(s) == s && no_newline(s)
}

/// A pattern of one character stands where that character stands.
pub proof fn lemma_matches_single(s: Seq<char>, c: char, i: int)
    ensures
        matches_at(s, seq![c], i) <==> (0 <= i < s.len() && s[i] == c),
{
    if 0 <= i < s.len() {
        let sub = s.subrange(i, i + 1);
        if s[i] == c {
            assert(sub =~= seq![c]);
        } else {
            assert(sub[0] == s[i]);
        }
    }
}

/// The first match is the place where the pattern stands and before which,
/// from `from` on, it does not; or the end of the text where it stands
/// nowhere from `from` on.
pub proof fn lemma_first_match_is(s: Seq<char>, pat: Seq<char>, from: int, p: int)
    requires
        pat.len() > 0,
        0 <= from <= p <= s.len(),
        forall|i: int| from <= i < p ==> !matches_at(s, pat, i),
        p < s.len() ==> matches_at(s, pat, p),
    ensures
        first_match(s, pat, from) == p,
    decreases p - from,
{
    if from < p {
        if from + pat.len() <= s.len() {
            lemma_first_match_is(s, pat, from + 1, p);
        }
    }
}

/// The pieces between line feeds hold no line feed.
proof fn lemma_split_pieces_no_newline(s: Seq<char>, from: int)
    requires
        0 <= from <= s.len(),
    ensures
        forall|j: int|
            0 <= j < split_from(s, seq!['\n'], from).len() ==> no_newline(
                #[trigger] split_from(s, seq!['\n'], from)[j],
            ),
    decreases s.len() - from,
{
    let pat = seq!['\n'];
    let p = first_match(s, pat, from);
    lemma_first_match(s, pat, from);
    assert forall|i: int| from <= i < p implies s[i] != '\n' by {
        lemma_matches_single(s, '\n', i);
    }
    if p >= s.len() || p + pat.len() > s.len() {
    } else {
        lemma_split_pieces_no_newline(s, p + 1);
        let rest = split_from(s, pat, p + 1);
        let all = split_from(s, pat, from);
        assert(all =~= seq![s.subrange(from, p)] + rest);
        assert forall|j: int| 0 <= j < all.len() implies no_newline(#[trigger] all[j]) by {
            if j > 0 {
                assert(all[j] == rest[j - 1]);
            }
        }
    }
}

/// A text that ends with a line feed and a last line without one splits as
/// the text before the line feed does, with the last line as one more
/// piece.
proof fn lemma_split_append(a: Seq<char>, b: Seq<char>, from: int)
    requires
        no_newline(b),
        0 <= from <= a.len(),
    ensures
        split_from(a + seq!['\n'] + b, seq!['\n'], from) == split_from(a, seq!['\n'], from) + seq![
            b,
        ],
    decreases a.len() - from,
{
    let pat = seq!['\n'];
    let t = a + pat + b;
    let pa = first_match(a, pat, from);
    lemma_first_match(a, pat, from);
    assert forall|i: int| from <= i < pa implies !matches_at(t, pat, i) by {
        lemma_matches_single(a, '\n', i);
        lemma_matches_single(t, '\n', i);
        assert(t[i] == a[i]);
    }
    if pa < a.len() {
        lemma_matches_single(a, '\n', pa);
        lemma_matches_single(t, '\n', pa);
        assert(t[pa] == a[pa]);
        lemma_first_match_is(t, pat, from, pa);
        lemma_split_append(a, b, pa + 1);
        assert(t.subrange(from, pa) =~= a.subrange(from, pa));
        assert(split_from(t, pat, from) =~= seq![t.subrange(from, pa)] + split_from(
            t,
            pat,
            pa + 1,
        ));
        assert(split_from(a, pat, from) =~= seq![a.subrange(from, pa)] + split_from(
            a,
            pat,
            pa + 1,
        ));
    } else {
        let n = a.len() as int;
        lemma_matches_single(t, '\n', n);
        assert(t[n] == '\n');
        lemma_first_match_is(t, pat, from, n);
        assert forall|i: int| n + 1 <= i < t.len() implies !matches_at(t, pat, i) by {
            lemma_matches_single(t, '\n', i);
            assert(t[i] == b[i - n - 1]);
        }
        lemma_first_match_is(t, pat, n + 1, t.len() as int);
        assert(t.subrange(n + 1, t.len() as int) =~= b);
        assert(t.subrange(from, n) =~= a.subrange(from, n));
        assert(split_from(t, pat, n + 1) =~= seq![b]);
        assert(split_from(t, pat, from) =~= seq![t.subrange(from, n)] + seq![b]);
        assert(split_from(a, pat, from) =~= seq![a.subrange(from, n)]);
    }
}

/// Lines without line feeds, joined by line feeds, split into themselves.
proof fn lemma_split_joined(parts: Seq<Seq<char>>)
    requires
        parts.len() >= 1,
        forall|i: int| 0 <= i < parts.len() ==> no_newline(#[trigger] parts[i]),
    ensures
        split_from(joined(parts, seq!['\n']), seq!['\n'], 0) == parts,
    decreases parts.len(),
{
    let pat = seq!['\n'];
    if parts.len() == 1 {
        let s = parts[0];
        assert forall|i: int| 0 <= i < s.len() implies !matches_at(s, pat, i) by {
            lemma_matches_single(s, '\n', i);
        }
        lemma_first_match_is(s, pat, 0, s.len() as int);
        assert(s.subrange(0, s.len() as int) =~= s);
        assert(split_from(s, pat, 0) =~= parts);
    } else {
        let init = parts.drop_last();
        assert forall|i: int| 0 <= i < init.len() implies no_newline(#[trigger] init[i]) by {
            assert(init[i] == parts[i]);
        }
        lemma_split_joined(init);
        lemma_split_append(joined(init, pat), parts.last(), 0);
        assert(init + seq![parts.last()] =~= parts);
    }
}

/// The lines that cleaning keeps are clean.
proof fn lemma_kept_lines_clean(lines: Seq<Seq<char>>)
    requires
        forall|i: int| 0 <= i < lines.len() ==> no_newline(#[trigger] lines[i]),
    ensures
        forall|j: int|
            0 <= j < kept_lines(lines).len() ==> is_clean_line(#[trigger] kept_lines(lines)[j]),
    decreases lines.len(),
{
    if lines.len() > 0 {
        let init = lines.drop_last();
        assert forall|i: int| 0 <= i < init.len() implies no_newline(#[trigger] init[i]) by {
            assert(init[i] == lines[i]);
        }
        lemma_kept_lines_clean(init);
        let x = lines.last();
        let line = trimmed(x);
        lemma_trim_idempotent(x);
        let a = trimmed_start(x);
        lemma_trimmed_start_clean(x);
        lemma_trimmed_end_clean(a);
        assert(no_newline(x));
        assert forall|i: int| 0 <= i < line.len() implies #[trigger] line[i] != '\n' by {
            assert(line[i] == a[i]);
            assert(a[i] == x[i + x.len() - a.len()]);
        }
        let kept = kept_lines(lines);
        assert forall|j: int| 0 <= j < kept.len() implies is_clean_line(#[trigger] kept[j]) by {
            if j < kept_lines(init).len() {
                assert(kept[j] == kept_lines(init)[j]);
            }
        }
    }
}

/// Clean lines are kept as they are.
proof fn lemma_kept_lines_fixed(lines: Seq<Seq<char>>)
    requires
        forall|i: int| 0 <= i < lines.len() ==> is_clean_line(#[trigger] lines[i]),
    ensures
        kept_lines(lines) == lines,
    decreases lines.len(),
{
    if lines.len() > 0 {
        let init = lines.drop_last();
        assert forall|i: int| 0 <= i < init.len() implies is_clean_line(#[trigger] init[i]) by {
            assert(init[i] == lines[i]);
        }
        lemma_kept_lines_fixed(init);
        assert(is_clean_line(lines.last()));
        assert(init.push(lines.last()) =~= lines);
    }
}

/// Clean lines, joined by line feeds, are the lines of the text that they
/// make.
proof fn lemma_lines_of_joined(lines: Seq<Seq<char>>)
    requires
        forall|i: int| 0 <= i < lines.len() ==> is_clean_line(#[trigger] lines[i]),
    ensures
        text_lines(joined(lines, seq!['\n'])) == lines,
{
    let pat = seq!['\n'];
    let s = joined(lines, pat);
    if lines.len() == 0 {
        let empty = Seq::<char>::empty();
        assert(s == empty);
        assert(first_match(empty, pat, 0) == 0);
        assert(split_from(empty, pat, 0) =~= seq![empty.subrange(0, 0)]);
        assert(text_lines(s) =~= lines);
    } else {
        assert forall|i: int| 0 <= i < lines.len() implies no_newline(#[trigger] lines[i]) by {
            assert(is_clean_line(lines[i]));
        }
        lemma_split_joined(lines);
        assert forall|i: int| 0 <= i < lines.len() implies without_cr(#[trigger] lines[i])
            == lines[i] by {
            assert(is_clean_line(lines[i]));
            lemma_trimmed_clean(lines[i]);
        }
        assert(is_clean_line(lines.last()));
        assert(text_lines(s) =~= lines);
    }
}

/// Cleaning is idempotent: a cleaned text is left as it is by cleaning it
/// again.
pub proof fn lemma_clean_idempotent(s: Seq<char>)
    ensures
        cleaned(cleaned(s)) == cleaned(s),
        kept_lines(text_lines(cleaned(s))) == kept_lines(text_lines(s)),
{
    let lines = text_lines(s);
    let parts = split_from(s, seq!['\n'], 0);
    lemma_split_pieces_no_newline(s, 0);
    assert forall|i: int| 0 <= i < lines.len() implies no_newline(#[trigger] lines[i]) by {
        assert(no_newline(parts[i]));
        if i < parts.len() - 1 {
            let x = parts[i];
            assert forall|k: int| 0 <= k < without_cr(x).len() implies #[trigger] without_cr(x)[k]
                != '\n' by {
                assert(without_cr(x)[k] == x[k]);
            }
        }
    }
    lemma_kept_lines_clean(lines);
    let kept = kept_lines(lines);
    lemma_lines_of_joined(kept);
    lemma_kept_lines_fixed(kept);
}

} // verus!
