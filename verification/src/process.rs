//! Reading the process list of the remote host: which process to trace, under
//! which name it logs, and which instance it is.

use vstd::prelude::*;
use vstd::slice::slice_subrange;
use vstd::string::StringExecFns;
use regex::Error as PatternError;
use crate::text::{
    after_last, chars_of, contains, find, first_occurrence, last_segment, line_views, occurs_in,
    pieces, pieces_of, slice_views, str_views, string_of, text_of,
};

verus! {

/// The text that opens the path of the executable in a line of the process
/// list.
pub open spec fn path_marker() -> Seq<char> {
    seq![' ', '/', 'h', 'o', 'm', 'e']
}

/// The text that opens the instance argument behind the path.
pub open spec fn path_end_marker() -> Seq<char> {
    seq![' ', '-', 'i']
}

/// The argument that begins with a dash and `letter`.
pub open spec fn flag(letter: char) -> Seq<char> {
    seq!['-', letter]
}

/// What stands in `s` from the first `open` up to the first `close` at or
/// behind it; `open` is part of it and `close` is not. There is none unless
/// both stand there.
pub open spec fn span_between(s: Seq<char>, open: Seq<char>, close: Seq<char>) -> Option<
    Seq<char>,
> {
    match first_occurrence(s, open) {
        Some(a) => match first_occurrence(s.skip(a), close) {
            Some(b) => Some(s.subrange(a, a + b)),
            None => None,
        },
        None => None,
    }
}

/// The name of the executable: the last part of the path that begins at the
/// first ` /home` and ends before the first ` -i` behind it.
pub open spec fn process_of(s: Seq<char>) -> Option<Seq<char>> {
    match span_between(s, path_marker(), path_end_marker()) {
        Some(path) => Some(last_segment(path, '/')),
        None => None,
    }
}

/// The value of the first argument that begins with a dash and `letter`: what
/// stands between the letter and the next blank. There is none unless a blank
/// follows.
pub open spec fn flag_value(s: Seq<char>, letter: char) -> Option<Seq<char>> {
    match span_between(s, flag(letter), seq![' ']) {
        Some(argument) => Some(argument.skip(2)),
        None => None,
    }
}

/// What stands in `s` from the first `open` up to the first `close` at or
/// behind it.
fn span<'a>(s: &'a [char], open: &[char], close: &[char]) -> (found: Option<&'a [char]>)
    ensures
        match found {
            Some(t) => span_between(s@, open@, close@) == Some(t@),
            None => span_between(s@, open@, close@) is None,
        },
{
    match find(s, open) {
        Some(a) => {
            let rest = slice_subrange(s, a, s.len());
            match find(rest, close) {
                Some(b) => {
                    Some(slice_subrange(s, a, a + b))
                },
                None => None,
            }
        },
        None => None,
    }
}

/// The value of the first argument of `s` that begins with a dash and
/// `letter`.
fn value_of_flag(s: &[char], letter: char) -> (found: Option<String>)
    requires
        letter != ' ',
    ensures
        text_of(found) == flag_value(s@, letter),
{
    let open: [char; 2] = ['-', letter];
    let close: [char; 1] = [' '];
    assert(close@ =~= seq![' ']);
    match find(s, open.as_slice()) {
        Some(a) => {
            let rest = slice_subrange(s, a, s.len());
            match find(rest, close.as_slice()) {
                Some(b) => {
                    // The flag holds no blank, so the blank stands behind it.
                    assert(b >= 2) by {
                        assert(s@.subrange(a as int, a + 2)[0] == '-');
                        assert(s@.subrange(a as int, a + 2)[1] == letter);
                        assert(rest@.subrange(b as int, b + 1)[0] == ' ');
                    }
                    let value = slice_subrange(s, a + 2, a + b);
                    Some(string_of(value))
                },
                None => None,
            }
        },
        None => None,
    }
}

/// Reads a line of the process list.
///
/// The results are, in this order: the name of the executable, the name
/// under which the instance runs (the value of `-r`) and the number of the
/// instance (the value of `-i`). Each is looked for on its own and is absent
/// where the line does not hold it.
pub fn find_process_and_instance(s: &str) -> (found: (
    Option<String>,
    Option<String>,
    Option<String>,
))
    ensures
        text_of(found.0) == process_of(s@),
        text_of(found.1) == flag_value(s@, 'r'),
        text_of(found.2) == flag_value(s@, 'i'),
{
    let text = chars_of(s);
    let open: [char; 6] = [' ', '/', 'h', 'o', 'm', 'e'];
    let close: [char; 3] = [' ', '-', 'i'];
    let process = match span(text.as_slice(), open.as_slice(), close.as_slice()) {
        Some(path) => Some(string_of(after_last(path, '/'))),
        None => None,
    };
    let process_name = value_of_flag(text.as_slice(), 'r');
    let instance = value_of_flag(text.as_slice(), 'i');
    (process, process_name, instance)
}

/// The pattern of a line of the process list. It names five groups: the
/// owner of the process, its number, the name of the executable, the number
/// of the instance and the name of the instance.
pub const PROCESS_DETAILS: &'static str =
    r"^(?P<process_owner>[[:alpha:]]*)\s*(?P<process_number>[[:digit:]]{1,5}).*.home.[[:alpha:]]*.bin.(?P<process_name>[[:alnum:],_,-]*)\s*(?:-i(?P<instance_number>[[:digit:]]*))*\s*(?:-r(?P<instance_name>[[:alpha:],_,-]*))?.*$";

/// The names of the groups of [`PROCESS_DETAILS`], in the order of the fields
/// of a parsed line.
pub open spec fn group_names() -> Seq<Seq<char>> {
    seq![
        "process_owner"@,
        "process_number"@,
        "process_name"@,
        "instance_number"@,
        "instance_name"@,
    ]
}

/// What stands for a group that took no part in the match.
pub open spec fn not_available() -> Seq<char> {
    seq!['n', '/', 'a']
}

/// What the regular expression `pattern` captures in `text` under each of
/// `names`.
///
/// The outer `None` says that `pattern` is no regular expression that can be
/// compiled, the inner one that it matches nowhere in `text`. Otherwise there
/// is, for each name in order, the text that the group of that name matched in
/// the first match, or `None` if no group has that name or the group took no
/// part in the match.
pub uninterp spec fn named_captures(
    pattern: Seq<char>,
    text: Seq<char>,
    names: Seq<Seq<char>>,
) -> Option<Option<Seq<Option<Seq<char>>>>>;

/// The texts of `groups`.
pub open spec fn group_views(groups: Seq<Option<String>>) -> Seq<Option<Seq<char>>> {
    groups.map_values(|g: Option<String>| text_of(g))
}

/// The text of a group, or `n/a` for a group that took no part.
pub open spec fn field_of(group: Option<Seq<char>>) -> Seq<char> {
    match group {
        Some(text) => text,
        None => not_available(),
    }
}

/// The field that group number `i` of `groups` gives; `n/a` where there is no
/// such group.
pub open spec fn field_at(groups: Seq<Option<Seq<char>>>, i: int) -> Seq<char> {
    if 0 <= i < groups.len() {
        field_of(groups[i])
    } else {
        not_available()
    }
}

/// The five fields of a line, from the groups that the pattern captured.
pub open spec fn details_of(groups: Seq<Option<Seq<char>>>) -> (
    Seq<char>,
    Seq<char>,
    Seq<char>,
    Seq<char>,
    Seq<char>,
) {
    (
        field_at(groups, 0),
        field_at(groups, 1),
        field_at(groups, 2),
        field_at(groups, 3),
        field_at(groups, 4),
    )
}

/// The texts of five fields.
pub open spec fn field_views(fields: (String, String, String, String, String)) -> (
    Seq<char>,
    Seq<char>,
    Seq<char>,
    Seq<char>,
    Seq<char>,
) {
    (fields.0@, fields.1@, fields.2@, fields.3@, fields.4@)
}

/// Why a line of the process list could not be read.
#[derive(Debug, PartialEq, Eq)]
pub enum PsLineError {
    /// The pattern is no regular expression.
    Pattern,
    /// The line does not match the pattern.
    NoMatch,
}

/// `regex::Error`: why a pattern could not be compiled. Nothing is said of
/// its values.
#[verifier::external_type_specification]
#[verifier::external_body]
pub struct ExPatternError(PatternError);

/// Compiles `pattern` with `regex::Regex::new`, searches `text` with
/// `Regex::captures`, and reads each of `names` with `Captures::name` and
/// `Match::as_str`.
///
/// The result is an error exactly where the pattern does not compile, and
/// otherwise what [`named_captures`] names: nothing where the pattern does
/// not match, else one entry for each name, in order.
#[verifier::external_body]
fn capture_names(pattern: &str, text: &str, names: &[&str]) -> (found: Result<
    Option<Vec<Option<String>>>,
    PatternError,
>)
    ensures
        match found {
            Ok(Some(groups)) => named_captures(pattern@, text@, str_views(names@)) == Some(
                Some(group_views(groups@)),
            ),
            Ok(None) => named_captures(pattern@, text@, str_views(names@)) == Some(
                None::<Seq<Option<Seq<char>>>>,
            ),
            Err(_) => named_captures(pattern@, text@, str_views(names@)) is None,
        },
{
    let re = regex::Regex::new(pattern)?;
    let captures = match re.captures(text) {
        Some(c) => c,
        None => return Ok(None),
    };
    let mut groups = Vec::new();
    for name in names {
        groups.push(match captures.name(name) {
            Some(m) => Some(m.as_str().to_owned()),
            None => None,
        });
    }
    Ok(Some(groups))
}

/// The field that group number `i` of `groups` gives.
fn field(groups: &Vec<Option<String>>, i: usize) -> (text: String)
    ensures
        text@ == field_at(group_views(groups@), i as int),
{
    if i < groups.len() {
        match &groups[i] {
            Some(t) => {
                return t.clone();
            },
            None => {},
        }
    }
    proof {
        reveal_strlit("n/a");
    }
    String::from_str("n/a")
}

/// The five fields of a line of the process list, from the groups that the
/// pattern captured, in their order: the text of each group, and `n/a` for a
/// group that took no part in the match or is not there.
pub fn process_details(groups: &Vec<Option<String>>) -> (fields: (
    String,
    String,
    String,
    String,
    String,
))
    ensures
        field_views(fields) == details_of(group_views(groups@)),
{
    (field(groups, 0), field(groups, 1), field(groups, 2), field(groups, 3), field(groups, 4))
}

/// Reads a line of the process list with `pattern`, a regular expression
/// that names the five groups of [`group_names`].
///
/// The fields are, in this order: the owner of the process, its number, the
/// name of the executable, the number of the instance and the name of the
/// instance. A field whose group took no part in the match is `n/a`. The
/// line is refused where the pattern does not match it, and every line is
/// refused where the pattern is no regular expression.
pub fn parse_line_with(pattern: &str, line: &str) -> (parsed: Result<
    (String, String, String, String, String),
    PsLineError,
>)
    ensures
        match named_captures(pattern@, line@, group_names()) {
            Some(Some(groups)) => parsed matches Ok(fields) && field_views(fields) == details_of(
                groups,
            ),
            Some(None) => parsed == Err::<(String, String, String, String, String), _>(
                PsLineError::NoMatch,
            ),
            None => parsed == Err::<(String, String, String, String, String), _>(
                PsLineError::Pattern,
            ),
        },
{
    let names: [&str; 5] = [
        "process_owner",
        "process_number",
        "process_name",
        "instance_number",
        "instance_name",
    ];
    assert(str_views(names@) =~= group_names());
    match capture_names(pattern, line, names.as_slice()) {
        Ok(Some(groups)) => Ok(process_details(&groups)),
        Ok(None) => Err(PsLineError::NoMatch),
        Err(_) => Err(PsLineError::Pattern),
    }
}

/// Reads a line of the process list with [`PROCESS_DETAILS`]: the result is
/// that of [`parse_line_with`] for that pattern.
pub fn parse_ps_line(line: &str) -> (parsed: Result<
    (String, String, String, String, String),
    PsLineError,
>)
    ensures
        match named_captures(PROCESS_DETAILS@, line@, group_names()) {
            Some(Some(groups)) => parsed matches Ok(fields) && field_views(fields) == details_of(
                groups,
            ),
            Some(None) => parsed == Err::<(String, String, String, String, String), _>(
                PsLineError::NoMatch,
            ),
            None => parsed == Err::<(String, String, String, String, String), _>(
                PsLineError::Pattern,
            ),
        },
{
    parse_line_with(PROCESS_DETAILS, line)
}

/// The word that marks the line of the search itself in a process list.
pub open spec fn search_marker() -> Seq<char> {
    seq!['g', 'r', 'e', 'p']
}

/// `line` describes a process: it is not empty and is not the line of the
/// search itself.
pub open spec fn describes_process(line: Seq<char>) -> bool {
    line.len() > 0 && !occurs_in(line, search_marker())
}

/// The lines of a process list that describe a process, in their order.
pub open spec fn process_lines_of(output: Seq<char>) -> Seq<Seq<char>> {
    pieces_of(output).filter(|line: Seq<char>| describes_process(line))
}

/// The lines of a process list that describe a process, in their order: the
/// empty lines and the lines of the search itself are left out.
pub fn process_lines(output: &str) -> (lines: Vec<String>)
    ensures
        line_views(lines@) == process_lines_of(output@),
{
    let text = chars_of(output);
    let all = pieces(text.as_slice());
    let marker: [char; 4] = ['g', 'r', 'e', 'p'];
    let ghost keep = |line: Seq<char>| describes_process(line);
    let ghost views = slice_views(all@);
    let mut lines: Vec<String> = Vec::new();
    let mut i: usize = 0;
    proof {
        reveal(Seq::filter);
    }
    while i < all.len()
        invariant
            i <= all.len(),
            marker@ == search_marker(),
            keep == |line: Seq<char>| describes_process(line),
            views == slice_views(all@),
            line_views(lines@) == views.take(i as int).filter(keep),
        decreases all.len() - i,
    {
        let line = all[i];
        proof {
            reveal(Seq::filter);
            assert(views.take(i + 1).drop_last() =~= views.take(i as int));
        }
        if line.len() > 0 && !contains(line, marker.as_slice()) {
            lines.push(string_of(line));
        }
        i += 1;
    }
    assert(views.take(all.len() as int) =~= views);
    lines
}

} // verus!
