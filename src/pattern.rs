//! Headline and embedded-timestamp recognition on lines of text.
use vstd::prelude::*;
use crate::text::{chars_of, lines_of, split_lines, string_of_range};

verus! {

/// The character classes the grammars below are built from.
pub enum CharClass {
    /// The heading marker `#`.
    Hash,
    /// Blank space within a line: any Unicode white space but the line feed.
    Space,
    /// An ASCII decimal digit. Timestamps are RFC 2822 text, which is ASCII.
    Digit,
    /// An ASCII letter, digit or underscore.
    Word,
}

/// Unicode white space (the `White_Space` property), less the line feed that
/// ends a line.
pub open spec fn is_blank(c: char) -> bool {
    c == '\t' || c == '\x0B' || c == '\x0C' || c == '\r' || c == ' ' || c == '\u{85}'
        || c == '\u{A0}' || c == '\u{1680}' || ('\u{2000}' <= c && c <= '\u{200A}')
        || c == '\u{2028}' || c == '\u{2029}' || c == '\u{202F}' || c == '\u{205F}'
        || c == '\u{3000}'
}

fn blank(c: char) -> (r: bool)
    ensures
        r == is_blank(c),
{
    c == '\t' || c == '\x0B' || c == '\x0C' || c == '\r' || c == ' ' || c == '\u{85}'
        || c == '\u{A0}' || c == '\u{1680}' || ('\u{2000}' <= c && c <= '\u{200A}')
        || c == '\u{2028}' || c == '\u{2029}' || c == '\u{202F}' || c == '\u{205F}'
        || c == '\u{3000}'
}

pub open spec fn in_class(c: char, k: CharClass) -> bool {
    match k {
        CharClass::Hash => c == '#',
        CharClass::Space => is_blank(c),
        CharClass::Digit => '0' <= c && c <= '9',
        CharClass::Word => ('0' <= c && c <= '9') || ('a' <= c && c <= 'z') || ('A' <= c
            && c <= 'Z') || c == '_',
    }
}

fn is_in_class(c: char, k: &CharClass) -> (r: bool)
    ensures
        r == in_class(c, *k),
{
    match k {
        CharClass::Hash => c == '#',
        CharClass::Space => blank(c),
        CharClass::Digit => '0' <= c && c <= '9',
        CharClass::Word => ('0' <= c && c <= '9') || ('a' <= c && c <= 'z') || ('A' <= c
            && c <= 'Z') || c == '_',
    }
}

/// The end of the longest run of class `k` that starts at `i`.
pub open spec fn run_end(l: Seq<char>, i: int, k: CharClass) -> int
    decreases l.len() - i,
{
    if 0 <= i < l.len() && in_class(l[i], k) {
        run_end(l, i + 1, k)
    } else {
        i
    }
}

fn skip_run(l: &Vec<char>, i: usize, k: &CharClass) -> (r: usize)
    requires
        i <= l@.len(),
    ensures
        r == run_end(l@, i as int, *k),
        i <= r <= l@.len(),
{
    let mut j = i;
    while j < l.len() && is_in_class(l[j], k)
        invariant
            i <= j <= l@.len(),
            run_end(l@, j as int, *k) == run_end(l@, i as int, *k),
        decreases l@.len() - j,
    {
        j += 1;
    }
    j
}

/// Whether every character of `l[i..i+n]` is of class `k` (and the range fits).
pub open spec fn all_in_class(l: Seq<char>, i: int, n: int, k: CharClass) -> bool {
    0 <= i && i + n <= l.len() && forall|m: int| i <= m < i + n ==> in_class(#[trigger] l[m], k)
}

fn check_all(l: &Vec<char>, i: usize, n: usize, k: &CharClass) -> (r: bool)
    requires
        n <= 8,
    ensures
        r == all_in_class(l@, i as int, n as int, *k),
{
    if i > l.len() || n > l.len() - i {
        return false;
    }
    let end = i + n;
    let mut m = i;
    while m < end
        invariant
            end == i + n,
            i <= m <= i + n <= l@.len(),
            forall|q: int| i <= q < m ==> in_class(#[trigger] l@[q], *k),
        decreases end - m,
    {
        if !is_in_class(l[m], k) {
            return false;
        }
        m += 1;
    }
    true
}

/// The text of a heading line: one or more `#`, then a run of blank space, then
/// the text, which must not be empty.
pub open spec fn headline_of(l: Seq<char>) -> Option<Seq<char>> {
    let a = run_end(l, 0, CharClass::Hash);
    let b = run_end(l, a, CharClass::Space);
    if a > 0 && b > a && b < l.len() {
        Some(l.subrange(b, l.len() as int))
    } else {
        None
    }
}

/// The heading texts of `ls`, in order.
pub open spec fn headlines_in(ls: Seq<Seq<char>>) -> Seq<Seq<char>>
    decreases ls.len(),
{
    if ls.len() == 0 {
        seq![]
    } else {
        let rest = headlines_in(ls.drop_last());
        match headline_of(ls.last()) {
            Some(t) => rest.push(t),
            None => rest,
        }
    }
}

/// The heading texts of the text `s`, in document order.
pub open spec fn headlines_of(s: Seq<char>) -> Seq<Seq<char>> {
    headlines_in(lines_of(s))
}

/// The heading text of one line, if it is a heading.
pub fn headline_text(l: &Vec<char>) -> (r: Option<String>)
    ensures
        match headline_of(l@) {
            Some(t) => r is Some && r->0@ == t,
            None => r is None,
        },
{
    let a = skip_run(l, 0, &CharClass::Hash);
    let b = skip_run(l, a, &CharClass::Space);
    if a > 0 && b > a && b < l.len() {
        Some(string_of_range(l, b, l.len()))
    } else {
        None
    }
}

/// Splitting a run of lines in two splits its headings the same way: extraction
/// keeps document order, and each heading depends on its own line alone.
pub proof fn lemma_headlines_split(a: Seq<Seq<char>>, b: Seq<Seq<char>>)
    ensures
        headlines_in(a + b) == headlines_in(a) + headlines_in(b),
    decreases b.len(),
{
    if b.len() == 0 {
        assert(a + b =~= a);
        assert(headlines_in(b) =~= seq![]);
        assert(headlines_in(a) + headlines_in(b) =~= headlines_in(a));
    } else {
        assert((a + b).drop_last() =~= a + b.drop_last());
        assert((a + b).last() == b.last());
        lemma_headlines_split(a, b.drop_last());
        match headline_of(b.last()) {
            Some(t) => {
                assert(headlines_in(a) + headlines_in(b.drop_last()).push(t) =~= (headlines_in(a)
                    + headlines_in(b.drop_last())).push(t));
            },
            None => {},
        }
    }
}

/// Extraction depends on the text alone: equal texts give equal, equally
/// ordered headings, so running it again gives the same result.
pub proof fn lemma_headlines_deterministic(s: Seq<char>, t: Seq<char>)
    requires
        s == t,
    ensures
        headlines_of(s) == headlines_of(t),
{
}

/// The heading texts of `content`, in document order.
pub fn extract_headlines(content: &str) -> (r: Vec<String>)
    ensures
        r@.len() == headlines_of(content@).len(),
        forall|k: int| 0 <= k < r@.len() ==> #[trigger] r@[k]@ == headlines_of(content@)[k],
{
    let cs = chars_of(content);
    let ls = split_lines(&cs);
    let ghost gl = lines_of(cs@);
    let mut out: Vec<String> = Vec::new();
    let mut i: usize = 0;
    while i < ls.len()
        invariant
            i <= ls@.len(),
            ls@.len() == gl.len(),
            gl == lines_of(content@),
            forall|k: int| 0 <= k < ls@.len() ==> #[trigger] ls@[k]@ == gl[k],
            out@.len() == headlines_in(gl.take(i as int)).len(),
            forall|k: int|
                0 <= k < out@.len() ==> #[trigger] out@[k]@ == headlines_in(gl.take(i as int))[k],
        decreases ls@.len() - i,
    {
        assert(gl.take(i + 1).drop_last() =~= gl.take(i as int));
        assert(gl.take(i + 1).last() == ls@[i as int]@);
        match headline_text(&ls[i]) {
            Some(t) => out.push(t),
            None => {},
        }
        i += 1;
    }
    assert(gl.take(i as int) =~= gl);
    out
}

/// Where a timestamp of the shape `Www, D Mmm YYYY HH:MM:SS` that starts at `i`
/// ends: three word characters and a comma, blank space, one or two digits, blank
/// space, three word characters, blank space, four digits, blank space, then
/// `HH:MM:SS` in digits.
pub open spec fn date_end_at(l: Seq<char>, i: int) -> Option<int> {
    let j = i + 4;
    let d = run_end(l, j, CharClass::Space);
    let e = run_end(l, d, CharClass::Digit);
    let f = run_end(l, e, CharClass::Space);
    let g = run_end(l, f + 3, CharClass::Space);
    let h = run_end(l, g + 4, CharClass::Space);
    if all_in_class(l, i, 3, CharClass::Word) && i + 3 < l.len() && l[i + 3] == ','
        && d > j && 1 <= e - d <= 2 && f > e && all_in_class(l, f, 3, CharClass::Word)
        && g > f + 3 && all_in_class(l, g, 4, CharClass::Digit) && h > g + 4
        && all_in_class(l, h, 2, CharClass::Digit) && h + 2 < l.len() && l[h + 2] == ':'
        && all_in_class(l, h + 3, 2, CharClass::Digit) && h + 5 < l.len() && l[h + 5] == ':'
        && all_in_class(l, h + 6, 2, CharClass::Digit) {
        Some(h + 8)
    } else {
        None
    }
}

/// The leftmost embedded timestamp at or after `i`, as a start and an end.
pub open spec fn find_date_from(l: Seq<char>, i: int) -> Option<(int, int)>
    decreases l.len() - i,
{
    if i < 0 || i >= l.len() {
        None
    } else {
        match date_end_at(l, i) {
            Some(e) => Some((i, e)),
            None => find_date_from(l, i + 1),
        }
    }
}

/// The leftmost embedded timestamp of the line `l`, as a start and an end.
pub open spec fn find_date(l: Seq<char>) -> Option<(int, int)> {
    find_date_from(l, 0)
}

fn date_end(l: &Vec<char>, i: usize) -> (r: Option<usize>)
    requires
        i < l@.len(),
    ensures
        match date_end_at(l@, i as int) {
            Some(e) => r == Some(e as usize),
            None => r is None,
        },
{
    let n = l.len();
    if !(check_all(l, i, 3, &CharClass::Word) && i + 3 < n && l[i + 3] == ',') {
        return None;
    }
    let j = i + 4;
    let d = skip_run(l, j, &CharClass::Space);
    let e = skip_run(l, d, &CharClass::Digit);
    let f = skip_run(l, e, &CharClass::Space);
    if !(d > j && e - d >= 1 && e - d <= 2 && f > e && check_all(l, f, 3, &CharClass::Word)) {
        return None;
    }
    let g = skip_run(l, f + 3, &CharClass::Space);
    if !(g > f + 3 && check_all(l, g, 4, &CharClass::Digit)) {
        return None;
    }
    let h = skip_run(l, g + 4, &CharClass::Space);
    if h > g + 4 && check_all(l, h, 2, &CharClass::Digit) && h + 2 < n && l[h + 2] == ':'
        && check_all(l, h + 3, 2, &CharClass::Digit) && h + 5 < n && l[h + 5] == ':'
        && check_all(l, h + 6, 2, &CharClass::Digit) {
        Some(h + 8)
    } else {
        None
    }
}

/// The leftmost embedded timestamp of the line `l`, as a start and an end.
pub fn locate_date(l: &Vec<char>) -> (r: Option<(usize, usize)>)
    ensures
        match r {
            Some(p) => find_date(l@) == Some((p.0 as int, p.1 as int)) && p.0 <= p.1 <= l@.len(),
            None => find_date(l@) is None,
        },
{
    let mut i: usize = 0;
    while i < l.len()
        invariant
            i <= l@.len(),
            find_date_from(l@, i as int) == find_date(l@),
        decreases l@.len() - i,
    {
        match date_end(l, i) {
            Some(e) => {
                return Some((i, e));
            },
            None => {},
        }
        i += 1;
    }
    None
}

/// The embedded timestamp text of `line`, if it has one.
pub fn extract_date(line: &str) -> (r: Option<String>)
    ensures
        match find_date(line@) {
            Some(p) => r is Some && r->0@ == line@.subrange(p.0, p.1),
            None => r is None,
        },
{
    let cs = chars_of(line);
    match locate_date(&cs) {
        Some(p) => Some(string_of_range(&cs, p.0, p.1)),
        None => None,
    }
}

} // verus!
