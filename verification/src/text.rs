//! Text as sequences of characters: prefixes, occurrences and lines.
//!
//! Every contract in this crate speaks of text through its view, a
//! `Seq<char>`. The executable functions here work on `[char]` slices, so that
//! a position in a text is a position in its view.

use vstd::prelude::*;
use vstd::slice::slice_subrange;

verus! {

/// The texts of `lines`.
pub open spec fn line_views(lines: Seq<String>) -> Seq<Seq<char>> {
    lines.map_values(|l: String| l@)
}

/// The texts of `items`.
pub open spec fn str_views(items: Seq<&str>) -> Seq<Seq<char>> {
    items.map_values(|t: &str| t@)
}

/// The texts of `items`.
pub open spec fn char_views(items: Seq<Vec<char>>) -> Seq<Seq<char>> {
    items.map_values(|t: Vec<char>| t@)
}

/// The texts of `items`.
pub open spec fn slice_views(items: Seq<&[char]>) -> Seq<Seq<char>> {
    items.map_values(|t: &[char]| t@)
}

/// The text of `s`, if there is one.
pub open spec fn text_of(s: Option<String>) -> Option<Seq<char>> {
    match s {
        Some(t) => Some(t@),
        None => None,
    }
}

/// `needle` stands in `hay` at position `at`.
pub open spec fn occurs_at(hay: Seq<char>, needle: Seq<char>, at: int) -> bool {
    &&& 0 <= at
    &&& at + needle.len() <= hay.len()
    &&& hay.subrange(at, at + needle.len()) == needle
}

/// `hay` begins with `needle`.
pub open spec fn has_prefix(hay: Seq<char>, needle: Seq<char>) -> bool {
    occurs_at(hay, needle, 0)
}

/// `needle` stands somewhere in `hay`.
pub open spec fn occurs_in(hay: Seq<char>, needle: Seq<char>) -> bool {
    exists|at: int| occurs_at(hay, needle, at)
}

/// `at` is the leftmost position at which `needle` stands in `hay`.
pub open spec fn is_first_occurrence(hay: Seq<char>, needle: Seq<char>, at: int) -> bool {
    &&& occurs_at(hay, needle, at)
    &&& forall|before: int| 0 <= before < at ==> !occurs_at(hay, needle, before)
}

/// The leftmost position at which `needle` stands in `hay`, if it stands
/// there at all.
pub open spec fn first_occurrence(hay: Seq<char>, needle: Seq<char>) -> Option<int> {
    if occurs_in(hay, needle) {
        Some(choose|at: int| is_first_occurrence(hay, needle, at))
    } else {
        None
    }
}

/// `k` is where the last segment of `text` begins: behind its last `sep`, or
/// at its start if it holds none.
pub open spec fn is_last_segment_start(text: Seq<char>, sep: char, k: int) -> bool {
    &&& 0 <= k <= text.len()
    &&& k > 0 ==> text[k - 1] == sep
    &&& forall|j: int| k <= j < text.len() ==> text[j] != sep
}

/// What stands in `text` behind its last `sep`; all of `text` if it holds
/// none.
pub open spec fn last_segment(text: Seq<char>, sep: char) -> Seq<char> {
    text.skip(choose|k: int| is_last_segment_start(text, sep, k))
}

/// `k` is where the first line of `text` ends: the position of its first line
/// feed, or the length of `text` if it holds none.
pub open spec fn is_line_end(text: Seq<char>, k: int) -> bool {
    &&& 0 <= k <= text.len()
    &&& k < text.len() ==> text[k] == '\n'
    &&& forall|j: int| 0 <= j < k ==> text[j] != '\n'
}

/// Where the first line of `text` ends (see [`is_line_end`]).
pub open spec fn line_end(text: Seq<char>) -> int {
    choose|k: int| is_line_end(text, k)
}

/// `line` without one trailing carriage return.
pub open spec fn strip_cr(line: Seq<char>) -> Seq<char> {
    if line.len() > 0 && line.last() == '\r' {
        line.drop_last()
    } else {
        line
    }
}

/// The lines of `text`.
///
/// A line ends at a line feed, or at a carriage return directly followed by a
/// line feed; the ending is not part of the line. What follows the last line
/// feed is a line of its own unless it is empty, and keeps a carriage return
/// at its end.
pub open spec fn lines_of(text: Seq<char>) -> Seq<Seq<char>>
    decreases text.len(),
{
    let k = line_end(text);
    if text.len() == 0 {
        Seq::empty()
    } else if 0 <= k < text.len() {
        seq![strip_cr(text.take(k))] + lines_of(text.skip(k + 1))
    } else {
        seq![text]
    }
}

/// The pieces into which the line feeds cut `text`. There is one piece more
/// than there are line feeds, and a piece may be empty.
pub open spec fn pieces_of(text: Seq<char>) -> Seq<Seq<char>>
    decreases text.len(),
{
    let k = line_end(text);
    if 0 <= k < text.len() {
        seq![text.take(k)] + pieces_of(text.skip(k + 1))
    } else {
        seq![text]
    }
}

/// `c` is white space.
pub open spec fn is_space(c: char) -> bool {
    ||| c == '\u{9}'
    ||| c == '\u{a}'
    ||| c == '\u{b}'
    ||| c == '\u{c}'
    ||| c == '\u{d}'
    ||| c == '\u{20}'
    ||| c == '\u{85}'
    ||| c == '\u{a0}'
    ||| c == '\u{1680}'
    ||| c == '\u{2000}'
    ||| c == '\u{2001}'
    ||| c == '\u{2002}'
    ||| c == '\u{2003}'
    ||| c == '\u{2004}'
    ||| c == '\u{2005}'
    ||| c == '\u{2006}'
    ||| c == '\u{2007}'
    ||| c == '\u{2008}'
    ||| c == '\u{2009}'
    ||| c == '\u{200a}'
    ||| c == '\u{2028}'
    ||| c == '\u{2029}'
    ||| c == '\u{202f}'
    ||| c == '\u{205f}'
    ||| c == '\u{3000}'
}

/// `text` without the white space at its start.
pub open spec fn trimmed_start(text: Seq<char>) -> Seq<char>
    decreases text.len(),
{
    if text.len() > 0 && is_space(text[0]) {
        trimmed_start(text.drop_first())
    } else {
        text
    }
}

/// `text` without the white space at its end.
pub open spec fn trimmed_end(text: Seq<char>) -> Seq<char>
    decreases text.len(),
{
    if text.len() > 0 && is_space(text.last()) {
        trimmed_end(text.drop_last())
    } else {
        text
    }
}

/// `text` without the white space at its start and at its end.
pub open spec fn trimmed(text: Seq<char>) -> Seq<char> {
    trimmed_end(trimmed_start(text))
}

/// A text that begins with `a` characters of white space and goes on with
/// another character, or ends there, is without them once it is trimmed at
/// its start.
pub proof fn lemma_trimmed_start(text: Seq<char>, a: int)
    requires
        0 <= a <= text.len(),
        forall|j: int| 0 <= j < a ==> is_space(text[j]),
        a < text.len() ==> !is_space(text[a]),
    ensures
        trimmed_start(text) == text.skip(a),
    decreases a,
{
    if a > 0 {
        lemma_trimmed_start(text.drop_first(), a - 1);
    }
}

/// A text whose last characters from position `b` on are white space, with
/// another character before them or none at all, is without them once it is
/// trimmed at its end.
pub proof fn lemma_trimmed_end(text: Seq<char>, b: int)
    requires
        0 <= b <= text.len(),
        forall|j: int| b <= j < text.len() ==> is_space(text[j]),
        b > 0 ==> !is_space(text[b - 1]),
    ensures
        trimmed_end(text) == text.take(b),
    decreases text.len() - b,
{
    if b < text.len() {
        lemma_trimmed_end(text.drop_last(), b);
    }
}

/// There is at most one leftmost occurrence.
pub proof fn lemma_first_occurrence_unique(hay: Seq<char>, needle: Seq<char>, at: int)
    requires
        is_first_occurrence(hay, needle, at),
    ensures
        first_occurrence(hay, needle) == Some(at),
{
}

/// A text has exactly one place where its last segment begins.
pub proof fn lemma_last_segment_unique(text: Seq<char>, sep: char, k: int)
    requires
        is_last_segment_start(text, sep, k),
    ensures
        last_segment(text, sep) == text.skip(k),
{
}

/// A text has exactly one line end.
pub proof fn lemma_line_end_unique(text: Seq<char>, k: int)
    requires
        is_line_end(text, k),
    ensures
        line_end(text) == k,
{
}

/// The lines of a text whose first line feed stands at `k` are its first line
/// and the lines of what follows the line feed.
pub proof fn lemma_lines_of_terminated(text: Seq<char>, k: int)
    requires
        is_line_end(text, k),
        k < text.len(),
    ensures
        lines_of(text) == seq![strip_cr(text.take(k))] + lines_of(text.skip(k + 1)),
{
    lemma_line_end_unique(text, k);
}

/// A non-empty text without a line feed is its own single line.
pub proof fn lemma_lines_of_unterminated(text: Seq<char>)
    requires
        text.len() > 0,
        is_line_end(text, text.len() as int),
    ensures
        lines_of(text) == seq![text],
{
    lemma_line_end_unique(text, text.len() as int);
}

/// `String::push`: the string afterwards is the string before with `c`
/// appended.
#[verifier::external_body]
fn push_char(s: &mut String, c: char)
    ensures
        final(s)@ == old(s)@.push(c),
{
    s.push(c)
}

/// The characters of `s`, in order.
pub fn chars_of(s: &str) -> (out: Vec<char>)
    ensures
        out@ == s@,
{
    let mut out: Vec<char> = Vec::new();
    for c in it: s.chars()
        invariant
            it.seq() == s@,
            out@ == s@.take(it.index() as int),
    {
        out.push(c);
    }
    out
}

/// The string made of `chars`, in order.
pub fn string_of(chars: &[char]) -> (out: String)
    ensures
        out@ == chars@,
{
    let mut out = String::new();
    let mut i: usize = 0;
    while i < chars.len()
        invariant
            i <= chars.len(),
            out@ == chars@.take(i as int),
        decreases chars.len() - i,
    {
        push_char(&mut out, chars[i]);
        i += 1;
    }
    out
}

/// Tells whether `needle` stands in `hay` at position `at`.
pub fn matches_at(hay: &[char], needle: &[char], at: usize) -> (found: bool)
    ensures
        found == occurs_at(hay@, needle@, at as int),
{
    if needle.len() > hay.len() || at > hay.len() - needle.len() {
        return false;
    }
    let mut j: usize = 0;
    while j < needle.len()
        invariant
            j <= needle.len(),
            at + needle.len() <= hay.len(),
            forall|t: int| 0 <= t < j ==> hay@[at + t] == needle@[t],
        decreases needle.len() - j,
    {
        if hay[at + j] != needle[j] {
            return false;
        }
        j += 1;
    }
    assert(hay@.subrange(at as int, at + needle.len()) =~= needle@);
    true
}

/// Tells whether `hay` begins with `needle`.
pub fn starts_with(hay: &[char], needle: &[char]) -> (found: bool)
    ensures
        found == has_prefix(hay@, needle@),
{
    matches_at(hay, needle, 0)
}

/// The leftmost position at which `needle` stands in `hay`, if it stands
/// there at all.
pub fn find(hay: &[char], needle: &[char]) -> (at: Option<usize>)
    ensures
        match at {
            Some(p) => first_occurrence(hay@, needle@) == Some(p as int),
            None => first_occurrence(hay@, needle@) is None,
        },
        at matches Some(p) ==> is_first_occurrence(hay@, needle@, p as int),
{
    if needle.len() > hay.len() {
        return None;
    }
    let last: usize = hay.len() - needle.len();
    let mut p: usize = 0;
    loop
        invariant
            p <= last,
            last == hay.len() - needle.len(),
            forall|before: int| 0 <= before < p ==> !occurs_at(hay@, needle@, before),
        decreases last - p,
    {
        if matches_at(hay, needle, p) {
            proof {
                lemma_first_occurrence_unique(hay@, needle@, p as int);
            }
            return Some(p);
        }
        if p == last {
            return None;
        }
        p += 1;
    }
}

/// Tells whether `needle` stands somewhere in `hay`.
pub fn contains(hay: &[char], needle: &[char]) -> (found: bool)
    ensures
        found == occurs_in(hay@, needle@),
{
    find(hay, needle).is_some()
}

/// What stands in `text` behind its last `sep`; all of `text` if it holds
/// none.
pub fn after_last(text: &[char], sep: char) -> (out: &[char])
    ensures
        out@ == last_segment(text@, sep),
{
    let mut k: usize = text.len();
    while k > 0 && text[k - 1] != sep
        invariant
            k <= text.len(),
            forall|j: int| k <= j < text.len() ==> text@[j] != sep,
        decreases k,
    {
        k -= 1;
    }
    proof {
        lemma_last_segment_unique(text@, sep, k as int);
    }
    slice_subrange(text, k, text.len())
}

/// Where the line that begins at `from` ends: the position of the first line
/// feed at or after `from`, or the length of `text` if there is none.
pub fn find_line_end(text: &[char], from: usize) -> (end: usize)
    requires
        from <= text.len(),
    ensures
        from <= end <= text.len(),
        is_line_end(text@.skip(from as int), end - from),
{
    let mut end: usize = from;
    while end < text.len() && text[end] != '\n'
        invariant
            from <= end <= text.len(),
            forall|j: int| from <= j < end ==> text@[j] != '\n',
        decreases text.len() - end,
    {
        end += 1;
    }
    end
}

/// `line` without one trailing carriage return.
pub fn without_cr(line: &[char]) -> (out: &[char])
    ensures
        out@ == strip_cr(line@),
{
    let n: usize = line.len();
    if n > 0 && line[n - 1] == '\r' {
        slice_subrange(line, 0, n - 1)
    } else {
        line
    }
}

/// The lines of `text`, each as the part of `text` that holds it.
pub fn lines<'a>(text: &'a [char]) -> (out: Vec<&'a [char]>)
    ensures
        slice_views(out@) == lines_of(text@),
{
    let mut out: Vec<&'a [char]> = Vec::new();
    let mut pos: usize = 0;
    assert(text@.skip(0) =~= text@);
    while pos < text.len()
        invariant
            pos <= text.len(),
            lines_of(text@) == slice_views(out@) + lines_of(text@.skip(pos as int)),
        decreases text.len() - pos,
    {
        let ghost rest = text@.skip(pos as int);
        let end = find_line_end(text, pos);
        let whole = slice_subrange(text, pos, end);
        assert(whole@ =~= rest.take(end - pos));
        let (line, next): (&'a [char], usize) = if end < text.len() {
            (without_cr(whole), end + 1)
        } else {
            (whole, end)
        };
        proof {
            if end < text.len() {
                lemma_lines_of_terminated(rest, end - pos);
                assert(rest.skip(end - pos + 1) =~= text@.skip(next as int));
            } else {
                lemma_lines_of_unterminated(rest);
            }
        }
        out.push(line);
        pos = next;
    }
    out
}

/// The pieces into which the line feeds cut `text`, each as the part of `text`
/// that holds it.
pub fn pieces<'a>(text: &'a [char]) -> (out: Vec<&'a [char]>)
    ensures
        slice_views(out@) == pieces_of(text@),
{
    let mut out: Vec<&'a [char]> = Vec::new();
    let mut pos: usize = 0;
    assert(text@.skip(0) =~= text@);
    loop
        invariant
            pos <= text.len(),
            pieces_of(text@) == slice_views(out@) + pieces_of(text@.skip(pos as int)),
        decreases text.len() - pos,
    {
        let ghost rest = text@.skip(pos as int);
        let end = find_line_end(text, pos);
        let piece = slice_subrange(text, pos, end);
        proof {
            lemma_line_end_unique(rest, end - pos);
            assert(piece@ =~= rest.take(end - pos));
        }
        out.push(piece);
        if end == text.len() {
            return out;
        }
        assert(rest.skip(end - pos + 1) =~= text@.skip(end + 1));
        pos = end + 1;
    }
}

/// Tells whether `c` is white space.
pub fn is_whitespace(c: char) -> (b: bool)
    ensures
        b == is_space(c),
{
    c == '\u{9}' || c == '\u{a}' || c == '\u{b}' || c == '\u{c}' || c == '\u{d}' || c == '\u{20}'
        || c == '\u{85}' || c == '\u{a0}' || c == '\u{1680}' || c == '\u{2000}' || c == '\u{2001}'
        || c == '\u{2002}' || c == '\u{2003}' || c == '\u{2004}' || c == '\u{2005}' || c
        == '\u{2006}' || c == '\u{2007}' || c == '\u{2008}' || c == '\u{2009}' || c == '\u{200a}'
        || c == '\u{2028}' || c == '\u{2029}' || c == '\u{202f}' || c == '\u{205f}' || c
        == '\u{3000}'
}

/// `text` without the white space at its start and at its end.
pub fn trim(text: &[char]) -> (out: &[char])
    ensures
        out@ == trimmed(text@),
{
    let mut a: usize = 0;
    while a < text.len() && is_whitespace(text[a])
        invariant
            a <= text.len(),
            forall|j: int| 0 <= j < a ==> is_space(text@[j]),
        decreases text.len() - a,
    {
        a += 1;
    }
    let mut b: usize = text.len();
    while b > a && is_whitespace(text[b - 1])
        invariant
            a <= b <= text.len(),
            forall|j: int| b <= j < text.len() ==> is_space(text@[j]),
        decreases b,
    {
        b -= 1;
    }
    proof {
        lemma_trimmed_start(text@, a as int);
        lemma_trimmed_end(text@.skip(a as int), b - a);
    }
    slice_subrange(text, a, b)
}

} // verus!
