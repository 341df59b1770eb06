//! What holds of every trace: theorems about the scanner of [`crate::model`].

use vstd::prelude::*;
use crate::classify::{
    attachment_line, blank, initiates, lemma_attachment_line_not_blank, starts_message,
};
use crate::model::{
    call_id, correlates, extract, lemma_step_valid, matches_terms, record_of, run, run_from,
    start, step, valid_attachment, valid_message, valid_record, valid_scan, Phase, Record, Scan,
};
use crate::text::occurs_in;

verus! {

/// The lines of an exchange as they stand in a trace: the message, a blank
/// line, the session description, a blank line.
pub open spec fn exchange_lines(message: Seq<Seq<char>>, attachment: Seq<Seq<char>>) -> Seq<
    Seq<char>,
> {
    message.push(Seq::empty()) + attachment.push(Seq::empty())
}

/// The lines of the session description of `r`; none if it has no description.
pub open spec fn attachment_lines(r: Record) -> Seq<Seq<char>> {
    match r.attachment {
        Some(a) => a,
        None => Seq::empty(),
    }
}

/// The trace that holds the exchanges of `records`, one after the other, and
/// nothing else.
pub open spec fn trace_of(records: Seq<Record>) -> Seq<Seq<char>>
    decreases records.len(),
{
    if records.len() == 0 {
        Seq::empty()
    } else {
        trace_of(records.drop_last()) + exchange_lines(
            records.last().message,
            attachment_lines(records.last()),
        )
    }
}

/// Record number `i` of the trace is completed by line number `k`: the first
/// `k` lines yield `i` records and the first `k + 1` lines yield one more.
pub open spec fn completes_at(lines: Seq<Seq<char>>, terms: Seq<Seq<char>>, i: int, k: int) -> bool {
    &&& 0 <= k < lines.len()
    &&& extract(lines.take(k), terms).len() == i
    &&& extract(lines.take(k + 1), terms).len() == i + 1
}

/// Reading `lines` and then `line` is one step after reading `lines`.
pub proof fn lemma_run_push(s: Scan, lines: Seq<Seq<char>>, line: Seq<char>, terms: Seq<Seq<char>>)
    ensures
        run_from(s, lines.push(line), terms) == step(run_from(s, lines, terms), line, terms),
{
    assert(lines.push(line).drop_last() =~= lines);
}

/// Reading `a + b` is reading `a` and then reading `b`.
pub proof fn lemma_run_concat(s: Scan, a: Seq<Seq<char>>, b: Seq<Seq<char>>, terms: Seq<Seq<char>>)
    ensures
        run_from(s, a + b, terms) == run_from(run_from(s, a, terms), b, terms),
    decreases b.len(),
{
    if b.len() > 0 {
        lemma_run_concat(s, a, b.drop_last(), terms);
        assert((a + b).drop_last() =~= a + b.drop_last());
    }
}

/// A line adds at most one record, and only a blank line adds one.
pub proof fn lemma_step_records(s: Scan, line: Seq<char>, terms: Seq<Seq<char>>)
    ensures
        step(s, line, terms).records == s.records || (blank(line) && step(
            s,
            line,
            terms,
        ).records.drop_last() == s.records && step(s, line, terms).records.len() == s.records.len()
            + 1),
{
}

/// The records of the first `a` lines open the records of the first `b`
/// lines, for `a <= b`.
pub proof fn lemma_records_grow(lines: Seq<Seq<char>>, terms: Seq<Seq<char>>, a: int, b: int)
    requires
        0 <= a <= b <= lines.len(),
    ensures
        extract(lines.take(a), terms).len() <= extract(lines.take(b), terms).len(),
        extract(lines.take(a), terms) == extract(lines.take(b), terms).take(
            extract(lines.take(a), terms).len() as int,
        ),
    decreases b - a,
{
    if a < b {
        lemma_records_grow(lines, terms, a, b - 1);
        let before = run(lines.take(b - 1), terms);
        assert(lines.take(b) =~= lines.take(b - 1).push(lines[b - 1]));
        lemma_run_push(start(), lines.take(b - 1), lines[b - 1], terms);
        lemma_step_records(before, lines[b - 1], terms);
    }
}

/// A trace without a line that starts a message yields no record.
pub proof fn law_no_message_start_no_record(lines: Seq<Seq<char>>, terms: Seq<Seq<char>>)
    requires
        forall|i: int| 0 <= i < lines.len() ==> !starts_message(#[trigger] lines[i]),
    ensures
        run(lines, terms) == start(),
        extract(lines, terms) == Seq::<Record>::empty(),
    decreases lines.len(),
{
    if lines.len() > 0 {
        law_no_message_start_no_record(lines.drop_last(), terms);
    }
}

/// From the idle phase, the lines of an initiating message bring the scanner
/// to the phase that holds exactly that message.
pub proof fn lemma_collects_initiating(s: Scan, message: Seq<Seq<char>>, terms: Seq<Seq<char>>)
    requires
        s.phase is Idle,
        valid_message(message),
        initiates(message[0]),
    ensures
        run_from(s, message, terms) == (Scan { phase: Phase::Initiating { message }, ..s }),
    decreases message.len(),
{
    if message.len() == 1 {
        assert(message =~= seq![message[0]]);
    } else {
        let front = message.drop_last();
        lemma_collects_initiating(s, front, terms);
        assert(front.push(message.last()) =~= message);
    }
}

/// From the idle phase, the lines of a message that does not initiate bring
/// the scanner to the phase that holds exactly that message.
pub proof fn lemma_collects_followup(s: Scan, message: Seq<Seq<char>>, terms: Seq<Seq<char>>)
    requires
        s.phase is Idle,
        valid_message(message),
        !initiates(message[0]),
    ensures
        run_from(s, message, terms) == (Scan { phase: Phase::Followup { message }, ..s }),
    decreases message.len(),
{
    if message.len() == 1 {
        assert(message =~= seq![message[0]]);
    } else {
        let front = message.drop_last();
        lemma_collects_followup(s, front, terms);
        assert(front.push(message.last()) =~= message);
    }
}

/// While it collects a session description, the scanner appends every line
/// of a session description that it reads.
pub proof fn lemma_collects_attachment(s: Scan, lines: Seq<Seq<char>>, terms: Seq<Seq<char>>)
    requires
        s.phase is Attachment,
        valid_attachment(lines),
    ensures
        run_from(s, lines, terms) == (Scan {
            phase: Phase::Attachment {
                message: s.phase->Attachment_message,
                attachment: s.phase->Attachment_attachment + lines,
            },
            ..s
        }),
    decreases lines.len(),
{
    let held = s.phase->Attachment_attachment;
    if lines.len() > 0 {
        let front = lines.drop_last();
        lemma_collects_attachment(s, front, terms);
        let line = lines.last();
        lemma_attachment_line_not_blank(line);
        assert((held + front).push(line) =~= held + lines);
    }
}

/// From the idle phase, an initiating message that matches the terms, with
/// its session description and the two blank lines, adds exactly its record
/// and makes its call identifier the current one.
pub proof fn lemma_matching_exchange_is_kept(
    s: Scan,
    message: Seq<Seq<char>>,
    attachment: Seq<Seq<char>>,
    terms: Seq<Seq<char>>,
)
    requires
        s.phase is Idle,
        valid_message(message),
        initiates(message[0]),
        matches_terms(message, terms),
        valid_attachment(attachment),
    ensures
        run_from(s, exchange_lines(message, attachment), terms) == (Scan {
            phase: Phase::Idle,
            key: call_id(message),
            records: s.records.push(record_of(message, attachment)),
        }),
{
    let none = Seq::<char>::empty();
    lemma_collects_initiating(s, message, terms);
    lemma_run_push(s, message, none, terms);
    let opened = run_from(s, message.push(none), terms);
    assert(opened == Scan {
        phase: Phase::Attachment { message, attachment: Seq::empty() },
        key: call_id(message),
        records: s.records,
    });
    lemma_collects_attachment(opened, attachment, terms);
    lemma_run_push(opened, attachment, none, terms);
    lemma_run_concat(s, message.push(none), attachment.push(none), terms);
}

/// An initiating message that matches the terms and is directly followed by
/// two blank lines yields a record without a session description.
pub proof fn law_bare_initiating_message_is_kept(
    s: Scan,
    message: Seq<Seq<char>>,
    terms: Seq<Seq<char>>,
)
    requires
        s.phase is Idle,
        valid_message(message),
        initiates(message[0]),
        matches_terms(message, terms),
    ensures
        run_from(s, message.push(Seq::empty()).push(Seq::empty()), terms) == (Scan {
            phase: Phase::Idle,
            key: call_id(message),
            records: s.records.push(Record { message, attachment: None }),
        }),
{
    lemma_matching_exchange_is_kept(s, message, Seq::empty(), terms);
    assert(exchange_lines(message, Seq::empty()) =~= message.push(Seq::empty()).push(
        Seq::empty(),
    ));
}

/// Without terms every well-formed initiating exchange is kept, once: where
/// the scanner is idle after the lines `before`, the exchange that follows
/// them adds exactly its record to the records of `before`.
pub proof fn law_unfiltered_exchange_is_kept_once(
    before: Seq<Seq<char>>,
    message: Seq<Seq<char>>,
    attachment: Seq<Seq<char>>,
)
    requires
        run(before, Seq::empty()).phase is Idle,
        valid_message(message),
        initiates(message[0]),
        valid_attachment(attachment),
    ensures
        run(before + exchange_lines(message, attachment), Seq::empty()).phase is Idle,
        extract(before + exchange_lines(message, attachment), Seq::empty()) == extract(
            before,
            Seq::empty(),
        ).push(record_of(message, attachment)),
{
    let terms = Seq::<Seq<char>>::empty();
    lemma_run_concat(start(), before, exchange_lines(message, attachment), terms);
    lemma_matching_exchange_is_kept(run(before, terms), message, attachment, terms);
}

/// Without terms, a trace made of well-formed initiating exchanges yields
/// exactly their records: each one once, in their order.
pub proof fn law_unfiltered_trace_keeps_every_exchange(records: Seq<Record>)
    requires
        forall|i: int|
            0 <= i < records.len() ==> valid_record(#[trigger] records[i]) && initiates(
                records[i].message[0],
            ),
    ensures
        run(trace_of(records), Seq::empty()).phase is Idle,
        extract(trace_of(records), Seq::empty()) == records,
    decreases records.len(),
{
    let terms = Seq::<Seq<char>>::empty();
    if records.len() > 0 {
        let front = records.drop_last();
        let r = records.last();
        law_unfiltered_trace_keeps_every_exchange(front);
        let before = run(trace_of(front), terms);
        lemma_run_concat(
            start(),
            trace_of(front),
            exchange_lines(r.message, attachment_lines(r)),
            terms,
        );
        lemma_matching_exchange_is_kept(before, r.message, attachment_lines(r), terms);
    }
}

/// Every record of a trace is completed by a line of the trace, that line is
/// blank, and the record stands in the output from that line on.
pub proof fn law_every_record_is_completed(lines: Seq<Seq<char>>, terms: Seq<Seq<char>>, i: int)
    requires
        0 <= i < extract(lines, terms).len(),
    ensures
        exists|k: int| #[trigger] completes_at(lines, terms, i, k),
        forall|k: int| #[trigger]
            completes_at(lines, terms, i, k) ==> blank(lines[k]) && extract(
                lines.take(k + 1),
                terms,
            )[i] == extract(lines, terms)[i],
{
    assert(lines.take(lines.len() as int) =~= lines);
    lemma_completion_exists(lines, terms, i, lines.len() as int);
    assert forall|k: int| #[trigger] completes_at(lines, terms, i, k) implies blank(lines[k])
        && extract(lines.take(k + 1), terms)[i] == extract(lines, terms)[i] by {
        lemma_records_grow(lines, terms, k + 1, lines.len() as int);
        assert(lines.take(k + 1) =~= lines.take(k).push(lines[k]));
        lemma_run_push(start(), lines.take(k), lines[k], terms);
        lemma_step_records(run(lines.take(k), terms), lines[k], terms);
    }
}

/// If the first `n` lines yield more than `i` records, one of them completes
/// record number `i`.
proof fn lemma_completion_exists(lines: Seq<Seq<char>>, terms: Seq<Seq<char>>, i: int, n: int)
    requires
        0 <= n <= lines.len(),
        0 <= i < extract(lines.take(n), terms).len(),
    ensures
        exists|k: int| #[trigger] completes_at(lines, terms, i, k),
    decreases n,
{
    if n > 0 {
        assert(lines.take(n) =~= lines.take(n - 1).push(lines[n - 1]));
        lemma_run_push(start(), lines.take(n - 1), lines[n - 1], terms);
        lemma_step_records(run(lines.take(n - 1), terms), lines[n - 1], terms);
        if i < extract(lines.take(n - 1), terms).len() {
            lemma_completion_exists(lines, terms, i, n - 1);
        } else {
            assert(completes_at(lines, terms, i, n - 1));
        }
    }
}

/// The records stand in the output in the order of the lines that complete
/// them: of two records, the one that comes first in the output is completed
/// by the earlier line.
pub proof fn law_records_in_trace_order(
    lines: Seq<Seq<char>>,
    terms: Seq<Seq<char>>,
    i: int,
    j: int,
    k: int,
    l: int,
)
    requires
        completes_at(lines, terms, i, k),
        completes_at(lines, terms, j, l),
    ensures
        i < j <==> k < l,
{
    if k < l {
        lemma_records_grow(lines, terms, k + 1, l);
    } else if l < k {
        lemma_records_grow(lines, terms, l + 1, k);
    }
}

/// A line that is neither blank nor a line of a session description, read
/// while the scanner collects a session description, drops the message: no
/// record is added, whatever lines of the description came before.
pub proof fn law_malformed_attachment_drops_message(
    s: Scan,
    lines: Seq<Seq<char>>,
    bad: Seq<char>,
    terms: Seq<Seq<char>>,
)
    requires
        s.phase is Attachment,
        valid_attachment(lines),
        !blank(bad),
        !attachment_line(bad),
    ensures
        run_from(s, lines.push(bad), terms) == (Scan { phase: Phase::Idle, ..s }),
{
    lemma_collects_attachment(s, lines, terms);
    lemma_run_push(s, lines, bad, terms);
}

/// The same from the idle phase: an initiating message that matches the
/// terms, a blank line, lines of a session description and then a malformed
/// line add no record. The call identifier of the message stays the current
/// one.
pub proof fn law_malformed_attachment_drops_exchange(
    s: Scan,
    message: Seq<Seq<char>>,
    attachment: Seq<Seq<char>>,
    bad: Seq<char>,
    terms: Seq<Seq<char>>,
)
    requires
        s.phase is Idle,
        valid_message(message),
        initiates(message[0]),
        matches_terms(message, terms),
        valid_attachment(attachment),
        !blank(bad),
        !attachment_line(bad),
    ensures
        run_from(s, message.push(Seq::empty()) + attachment.push(bad), terms) == (Scan {
            phase: Phase::Idle,
            key: call_id(message),
            records: s.records,
        }),
{
    let none = Seq::<char>::empty();
    lemma_collects_initiating(s, message, terms);
    lemma_run_push(s, message, none, terms);
    let opened = run_from(s, message.push(none), terms);
    law_malformed_attachment_drops_message(opened, attachment, bad, terms);
    lemma_run_concat(s, message.push(none), attachment.push(bad), terms);
}

/// From the idle phase, a message that does not initiate is dropped at its
/// blank line unless it carries the current call identifier.
pub proof fn law_followup_needs_current_call(
    s: Scan,
    message: Seq<Seq<char>>,
    terms: Seq<Seq<char>>,
)
    requires
        s.phase is Idle,
        valid_message(message),
        !initiates(message[0]),
    ensures
        run_from(s, message.push(Seq::empty()), terms) == (Scan {
            phase: if correlates(message, s.key) {
                Phase::Attachment { message, attachment: Seq::empty() }
            } else {
                Phase::Idle
            },
            ..s
        }),
{
    lemma_collects_followup(s, message, terms);
    lemma_run_push(s, message, Seq::empty(), terms);
}

/// Only the call that was initiated last is followed. After two initiating
/// exchanges that were both kept and identify different calls, a message of
/// the first call is dropped: the scanner holds the two records and nothing
/// of that message.
pub proof fn law_followup_of_replaced_call_is_dropped(
    s: Scan,
    first: Record,
    second: Record,
    followup: Seq<Seq<char>>,
    terms: Seq<Seq<char>>,
)
    requires
        s.phase is Idle,
        valid_record(first),
        initiates(first.message[0]),
        matches_terms(first.message, terms),
        valid_record(second),
        initiates(second.message[0]),
        matches_terms(second.message, terms),
        valid_message(followup),
        !initiates(followup[0]),
        call_id(followup) == call_id(first.message),
        call_id(first.message) != call_id(second.message),
    ensures
        run_from(
            s,
            exchange_lines(first.message, attachment_lines(first)) + exchange_lines(
                second.message,
                attachment_lines(second),
            ) + followup.push(Seq::empty()),
            terms,
        ) == (Scan {
            phase: Phase::Idle,
            key: call_id(second.message),
            records: s.records.push(first).push(second),
        }),
{
    let one = exchange_lines(first.message, attachment_lines(first));
    let two = exchange_lines(second.message, attachment_lines(second));
    let three = followup.push(Seq::empty());
    lemma_matching_exchange_is_kept(s, first.message, attachment_lines(first), terms);
    let after_one = run_from(s, one, terms);
    lemma_matching_exchange_is_kept(after_one, second.message, attachment_lines(second), terms);
    let after_two = run_from(after_one, two, terms);
    law_followup_needs_current_call(after_two, followup, terms);
    lemma_run_concat(s, one, two, terms);
    lemma_run_concat(s, one + two, three, terms);
}

/// Every record that a trace yields is well formed: its message has a first
/// line that holds the version token and no blank line, and its session
/// description, if it has one, is not empty and holds only lines of a session
/// description.
pub proof fn law_records_are_valid(lines: Seq<Seq<char>>, terms: Seq<Seq<char>>)
    ensures
        valid_scan(run(lines, terms)),
        forall|i: int|
            0 <= i < extract(lines, terms).len() ==> valid_record(#[trigger] extract(lines, terms)[i]),
    decreases lines.len(),
{
    if lines.len() > 0 {
        law_records_are_valid(lines.drop_last(), terms);
        lemma_step_valid(run(lines.drop_last(), terms), lines.last(), terms);
    }
}

/// Lines that are not blank complete no record: a message whose end the
/// trace does not hold is not in the output.
pub proof fn law_unfinished_tail_adds_nothing(
    lines: Seq<Seq<char>>,
    tail: Seq<Seq<char>>,
    terms: Seq<Seq<char>>,
)
    requires
        forall|i: int| 0 <= i < tail.len() ==> !blank(#[trigger] tail[i]),
    ensures
        extract(lines + tail, terms) == extract(lines, terms),
    decreases tail.len(),
{
    if tail.len() > 0 {
        let front = tail.drop_last();
        law_unfinished_tail_adds_nothing(lines, front, terms);
        assert(lines + tail =~= (lines + front).push(tail.last()));
        lemma_run_push(start(), lines + front, tail.last(), terms);
        lemma_step_records(run(lines + front, terms), tail.last(), terms);
    }
}

/// The terms select as a set: neither their order nor a repetition changes
/// which messages match.
pub proof fn lemma_terms_match_as_a_set(
    message: Seq<Seq<char>>,
    a: Seq<Seq<char>>,
    b: Seq<Seq<char>>,
)
    requires
        forall|t: Seq<char>| a.contains(t) <==> b.contains(t),
    ensures
        matches_terms(message, a) == matches_terms(message, b),
{
    lemma_terms_subset_match(message, a, b);
    lemma_terms_subset_match(message, b, a);
}

/// A message that matches terms matches every sequence of terms that holds
/// them all and, if they are none, is empty too.
proof fn lemma_terms_subset_match(message: Seq<Seq<char>>, a: Seq<Seq<char>>, b: Seq<Seq<char>>)
    requires
        forall|t: Seq<char>| a.contains(t) <==> b.contains(t),
    ensures
        matches_terms(message, a) ==> matches_terms(message, b),
{
    if matches_terms(message, a) {
        if a.len() == 0 {
            if b.len() > 0 {
                assert(b.contains(b[0]));
            }
        } else {
            let (i, j) = choose|i: int, j: int|
                0 <= i < message.len() && 0 <= j < a.len() && occurs_in(
                    #[trigger] message[i],
                    #[trigger] a[j],
                );
            assert(a.contains(a[j]));
        }
    }
}

/// The terms select as a set: two sequences of terms with the same members
/// yield the same records from every trace.
pub proof fn law_terms_select_as_a_set(
    lines: Seq<Seq<char>>,
    a: Seq<Seq<char>>,
    b: Seq<Seq<char>>,
)
    requires
        forall|t: Seq<char>| a.contains(t) <==> b.contains(t),
    ensures
        run(lines, a) == run(lines, b),
        extract(lines, a) == extract(lines, b),
    decreases lines.len(),
{
    if lines.len() > 0 {
        law_terms_select_as_a_set(lines.drop_last(), a, b);
        let s = run(lines.drop_last(), a);
        match s.phase {
            Phase::Initiating { message } => {
                lemma_terms_match_as_a_set(message, a, b);
            },
            _ => {},
        }
    }
}

} // verus!
