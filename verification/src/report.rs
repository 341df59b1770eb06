//! The lines of the status report: a table of the processes of the remote
//! host, five columns wide.

use vstd::prelude::*;
use vstd::string::StringExecFns;
use crate::text::chars_of;

verus! {

/// The width of a column of the table, in characters.
pub const COLUMN_WIDTH: usize = 15;

/// The width of the table: five columns and six bars.
pub const TABLE_WIDTH: usize = 81;

/// `n` times the character `c`.
pub open spec fn repeated(c: char, n: nat) -> Seq<char> {
    Seq::new(n, |i: int| c)
}

/// `text` in the middle of a field of `width` characters. Blanks fill the
/// field; where their number is odd, the greater half stands behind the text.
/// A text that is as long as the field, or longer, stays as it is.
pub open spec fn centered(text: Seq<char>, width: nat) -> Seq<char> {
    if text.len() >= width {
        text
    } else {
        let blanks = (width - text.len()) as nat;
        repeated(' ', blanks / 2) + text + repeated(' ', (blanks - blanks / 2) as nat)
    }
}

/// Five cells with a bar before, between and behind them.
pub open spec fn barred(cells: (Seq<char>, Seq<char>, Seq<char>, Seq<char>, Seq<char>)) -> Seq<
    char,
> {
    seq!['|'] + cells.0 + seq!['|'] + cells.1 + seq!['|'] + cells.2 + seq!['|'] + cells.3 + seq![
        '|',
    ] + cells.4 + seq!['|']
}

/// The line that rules off a part of the table.
pub open spec fn rule_text() -> Seq<char> {
    repeated('_', TABLE_WIDTH as nat)
}

/// The line that names the host: five cells with a blank between them and a
/// bar at each end, the second cell `Hostname:` and the fourth the name.
pub open spec fn hostname_text(hostname: Seq<char>) -> Seq<char> {
    let w = COLUMN_WIDTH as nat;
    let none = centered(Seq::empty(), w);
    seq!['|'] + none + seq![' '] + centered("Hostname:"@, w) + seq![' '] + none + seq![' ']
        + centered(hostname, w) + seq![' '] + none + seq!['|']
}

/// The line of a process: its five fields, each in the middle of its column.
pub open spec fn row_text(fields: (Seq<char>, Seq<char>, Seq<char>, Seq<char>, Seq<char>)) -> Seq<
    char,
> {
    let w = COLUMN_WIDTH as nat;
    barred(
        (
            centered(fields.0, w),
            centered(fields.1, w),
            centered(fields.2, w),
            centered(fields.3, w),
            centered(fields.4, w),
        ),
    )
}

/// The line that names the columns.
pub open spec fn titles_text() -> Seq<char> {
    row_text(
        ("Process owner"@, "Process #"@, "Process name"@, "Instance"@, "Instance name"@),
    )
}

/// Appends `n` times the character that `piece` holds.
fn append_repeated(out: &mut String, piece: &str, c: char, n: usize)
    requires
        piece@ == seq![c],
    ensures
        final(out)@ == old(out)@ + repeated(c, n as nat),
{
    let mut i: usize = 0;
    while i < n
        invariant
            i <= n,
            piece@ == seq![c],
            out@ == old(out)@ + repeated(c, i as nat),
        decreases n - i,
    {
        out.append(piece);
        i += 1;
    }
}

/// Appends `text` in the middle of a field of `width` characters.
fn append_centered(out: &mut String, text: &str, width: usize)
    ensures
        final(out)@ == old(out)@ + centered(text@, width as nat),
{
    let len: usize = chars_of(text).len();
    proof {
        reveal_strlit(" ");
        assert(" "@ =~= seq![' ']);
    }
    if len >= width {
        out.append(text);
    } else {
        let blanks: usize = width - len;
        let before: usize = blanks / 2;
        append_repeated(out, " ", ' ', before);
        out.append(text);
        append_repeated(out, " ", ' ', blanks - before);
    }
}

/// `text` in the middle of a field of `width` characters.
pub fn center(text: &str, width: usize) -> (out: String)
    ensures
        out@ == centered(text@, width as nat),
{
    let mut out = String::new();
    append_centered(&mut out, text, width);
    out
}

/// The line that rules off a part of the table.
pub fn rule() -> (line: String)
    ensures
        line@ == rule_text(),
{
    let mut line = String::new();
    proof {
        reveal_strlit("_");
        assert("_"@ =~= seq!['_']);
    }
    append_repeated(&mut line, "_", '_', TABLE_WIDTH);
    line
}

/// The line that names the host.
pub fn hostname_line(hostname: &str) -> (line: String)
    ensures
        line@ == hostname_text(hostname@),
{
    proof {
        reveal_strlit("|");
        reveal_strlit(" ");
        reveal_strlit("");
    }
    let mut line = String::from_str("|");
    append_centered(&mut line, "", COLUMN_WIDTH);
    line.append(" ");
    append_centered(&mut line, "Hostname:", COLUMN_WIDTH);
    line.append(" ");
    append_centered(&mut line, "", COLUMN_WIDTH);
    line.append(" ");
    append_centered(&mut line, hostname, COLUMN_WIDTH);
    line.append(" ");
    append_centered(&mut line, "", COLUMN_WIDTH);
    line.append("|");
    line
}

/// The line of five cells, each in the middle of its column.
fn row(a: &str, b: &str, c: &str, d: &str, e: &str) -> (line: String)
    ensures
        line@ == row_text((a@, b@, c@, d@, e@)),
{
    proof {
        reveal_strlit("|");
    }
    let mut line = String::from_str("|");
    append_centered(&mut line, a, COLUMN_WIDTH);
    line.append("|");
    append_centered(&mut line, b, COLUMN_WIDTH);
    line.append("|");
    append_centered(&mut line, c, COLUMN_WIDTH);
    line.append("|");
    append_centered(&mut line, d, COLUMN_WIDTH);
    line.append("|");
    append_centered(&mut line, e, COLUMN_WIDTH);
    line.append("|");
    line
}

/// The line that names the columns.
pub fn titles_line() -> (line: String)
    ensures
        line@ == titles_text(),
{
    row("Process owner", "Process #", "Process name", "Instance", "Instance name")
}

/// The line of a process with the fields `fields`.
pub fn process_line(fields: &(String, String, String, String, String)) -> (line: String)
    ensures
        line@ == row_text((fields.0@, fields.1@, fields.2@, fields.3@, fields.4@)),
{
    row(
        fields.0.as_str(),
        fields.1.as_str(),
        fields.2.as_str(),
        fields.3.as_str(),
        fields.4.as_str(),
    )
}

} // verus!
