//! The extraction of signalling exchanges from a trace, as mathematics.
//!
//! A trace is a sequence of lines. The scanner reads it once, line by line,
//! and is at every moment in one of four phases. Messages are blocks of
//! non-blank lines that end at a blank line; a session description may follow
//! a message and ends at the next blank line. An initiating message is kept
//! when it matches the filter terms, and makes its call identifier the current
//! one; any other message is kept when it carries the current call identifier.

use vstd::prelude::*;
use crate::classify::{
    attachment_line, blank, initiates, lemma_attachment_line_not_blank,
    lemma_message_start_not_blank, starts_message,
};
use crate::text::{has_prefix, occurs_in};

verus! {

/// A message and the session description that followed it, if one did.
pub struct Record {
    /// The lines of the message, as they stood in the trace.
    pub message: Seq<Seq<char>>,
    /// The lines of the session description.
    pub attachment: Option<Seq<Seq<char>>>,
}

/// What the scanner is doing between two lines.
pub enum Phase {
    /// Waiting for the first line of a message.
    Idle,
    /// Collecting the lines of an initiating message.
    Initiating { message: Seq<Seq<char>> },
    /// Collecting the lines of a message that does not initiate.
    Followup { message: Seq<Seq<char>> },
    /// Collecting the session description of a message that is kept.
    Attachment { message: Seq<Seq<char>>, attachment: Seq<Seq<char>> },
}

/// The scanner between two lines: its phase, the current call identifier and
/// the records that it has produced so far.
pub struct Scan {
    pub phase: Phase,
    pub key: Option<Seq<char>>,
    pub records: Seq<Record>,
}

/// The prefix of the line that identifies the call of a message.
pub open spec fn call_id_marker() -> Seq<char> {
    seq!['C', 'a', 'l', 'l', '-', 'I', 'D']
}

/// The first line of `message` that begins with the call identifier prefix.
pub open spec fn call_id(message: Seq<Seq<char>>) -> Option<Seq<char>>
    decreases message.len(),
{
    if message.len() == 0 {
        None
    } else if has_prefix(message[0], call_id_marker()) {
        Some(message[0])
    } else {
        call_id(message.drop_first())
    }
}

/// Some line of `message` holds some term; with no terms, every message
/// matches.
pub open spec fn matches_terms(message: Seq<Seq<char>>, terms: Seq<Seq<char>>) -> bool {
    terms.len() == 0 || exists|i: int, j: int|
        0 <= i < message.len() && 0 <= j < terms.len() && occurs_in(
            #[trigger] message[i],
            #[trigger] terms[j],
        )
}

/// `message` carries the current call identifier `key`. Without a current
/// call identifier no message does.
pub open spec fn correlates(message: Seq<Seq<char>>, key: Option<Seq<char>>) -> bool {
    key is Some && call_id(message) == key
}

/// The record of a message and the lines collected after it: without such
/// lines the record has no session description.
pub open spec fn record_of(message: Seq<Seq<char>>, attachment: Seq<Seq<char>>) -> Record {
    Record { message, attachment: if attachment.len() > 0 { Some(attachment) } else { None } }
}

/// The scanner before the first line.
pub open spec fn start() -> Scan {
    Scan { phase: Phase::Idle, key: None, records: Seq::empty() }
}

/// The scanner after it has read `line`.
pub open spec fn step(s: Scan, line: Seq<char>, terms: Seq<Seq<char>>) -> Scan {
    match s.phase {
        Phase::Idle => {
            if starts_message(line) && initiates(line) {
                Scan { phase: Phase::Initiating { message: seq![line] }, ..s }
            } else if starts_message(line) {
                Scan { phase: Phase::Followup { message: seq![line] }, ..s }
            } else {
                s
            }
        },
        Phase::Initiating { message } => {
            if !blank(line) {
                Scan { phase: Phase::Initiating { message: message.push(line) }, ..s }
            } else if matches_terms(message, terms) {
                Scan {
                    phase: Phase::Attachment { message, attachment: Seq::empty() },
                    key: call_id(message),
                    records: s.records,
                }
            } else {
                Scan { phase: Phase::Idle, ..s }
            }
        },
        Phase::Followup { message } => {
            if !blank(line) {
                Scan { phase: Phase::Followup { message: message.push(line) }, ..s }
            } else if correlates(message, s.key) {
                Scan { phase: Phase::Attachment { message, attachment: Seq::empty() }, ..s }
            } else {
                Scan { phase: Phase::Idle, ..s }
            }
        },
        Phase::Attachment { message, attachment } => {
            if blank(line) {
                Scan {
                    phase: Phase::Idle,
                    key: s.key,
                    records: s.records.push(record_of(message, attachment)),
                }
            } else if attachment_line(line) {
                Scan {
                    phase: Phase::Attachment { message, attachment: attachment.push(line) },
                    ..s
                }
            } else {
                Scan { phase: Phase::Idle, ..s }
            }
        },
    }
}

/// The scanner that was `s`, after it has read `lines` in order.
pub open spec fn run_from(s: Scan, lines: Seq<Seq<char>>, terms: Seq<Seq<char>>) -> Scan
    decreases lines.len(),
{
    if lines.len() == 0 {
        s
    } else {
        step(run_from(s, lines.drop_last(), terms), lines.last(), terms)
    }
}

/// The scanner after a whole trace.
pub open spec fn run(lines: Seq<Seq<char>>, terms: Seq<Seq<char>>) -> Scan {
    run_from(start(), lines, terms)
}

/// The records that a trace yields. A message whose end the trace does not
/// hold yields none.
pub open spec fn extract(lines: Seq<Seq<char>>, terms: Seq<Seq<char>>) -> Seq<Record> {
    run(lines, terms).records
}

/// `lines`, each followed by a line feed.
pub open spec fn join_lines(lines: Seq<Seq<char>>) -> Seq<char>
    decreases lines.len(),
{
    if lines.len() == 0 {
        Seq::empty()
    } else {
        join_lines(lines.drop_last()) + lines.last().push('\n')
    }
}

/// The text of a record: the lines of the message, then, if there is a session
/// description, one empty line and the lines of the description. Every line
/// ends with a line feed.
pub open spec fn render(r: Record) -> Seq<char> {
    match r.attachment {
        Some(a) => join_lines(r.message) + seq!['\n'] + join_lines(a),
        None => join_lines(r.message),
    }
}

/// The lines of a message: there is a first line, it holds the version token,
/// and no line is blank.
pub open spec fn valid_message(message: Seq<Seq<char>>) -> bool {
    &&& message.len() > 0
    &&& starts_message(message[0])
    &&& forall|i: int| 0 <= i < message.len() ==> !blank(#[trigger] message[i])
}

/// Every line is a line of a session description.
pub open spec fn valid_attachment(attachment: Seq<Seq<char>>) -> bool {
    forall|i: int| 0 <= i < attachment.len() ==> attachment_line(#[trigger] attachment[i])
}

/// The message of the record is one, and its session description, if it has
/// one, is not empty and holds nothing but lines of a session description.
pub open spec fn valid_record(r: Record) -> bool {
    &&& valid_message(r.message)
    &&& r.attachment matches Some(a) ==> a.len() > 0 && valid_attachment(a)
}

/// What the scanner holds in a phase is well formed.
pub open spec fn valid_phase(p: Phase) -> bool {
    match p {
        Phase::Idle => true,
        Phase::Initiating { message } => valid_message(message) && initiates(message[0]),
        Phase::Followup { message } => valid_message(message) && !initiates(message[0]),
        Phase::Attachment { message, attachment } => valid_message(message) && valid_attachment(
            attachment,
        ),
    }
}

/// The scanner is well formed: its phase is, and so is every record that it
/// has produced.
pub open spec fn valid_scan(s: Scan) -> bool {
    &&& valid_phase(s.phase)
    &&& forall|i: int| 0 <= i < s.records.len() ==> valid_record(#[trigger] s.records[i])
}

/// Reading a line keeps the scanner well formed.
pub proof fn lemma_step_valid(s: Scan, line: Seq<char>, terms: Seq<Seq<char>>)
    requires
        valid_scan(s),
    ensures
        valid_scan(step(s, line, terms)),
{
    if starts_message(line) {
        lemma_message_start_not_blank(line);
    }
    if attachment_line(line) {
        lemma_attachment_line_not_blank(line);
    }
}

} // verus!
