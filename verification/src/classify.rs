//! What a single line of a trace is: the start of a message, the start of an
//! initiating message, a blank line, or a line of a session description.
//!
//! Each predicate is total: it answers for every line, the empty one included.

use vstd::prelude::*;
use crate::text::{contains, has_prefix, occurs_at, occurs_in, starts_with};

verus! {

/// The protocol version token that every first line of a message holds.
pub open spec fn version_marker() -> Seq<char> {
    seq!['S', 'I', 'P', '/', '2', '.', '0']
}

/// The verb with which the first line of an initiating message begins.
pub open spec fn invite_verb() -> Seq<char> {
    seq!['I', 'N', 'V', 'I', 'T', 'E']
}

/// The prefixes with which a line of a session description may begin.
pub open spec fn attachment_prefixes() -> Seq<Seq<char>> {
    seq![
        seq!['v', '='],
        seq!['o', '='],
        seq!['s', '='],
        seq!['i', '='],
        seq!['u', '='],
        seq!['e', '='],
        seq!['p', '='],
        seq!['c', '='],
        seq!['b', '='],
        seq!['z', '='],
        seq!['k', '='],
        seq!['a', '='],
        seq!['t', '='],
        seq!['r', '='],
        seq!['m', '='],
    ]
}

/// `line` is the first line of a message: it holds the version token.
pub open spec fn starts_message(line: Seq<char>) -> bool {
    occurs_in(line, version_marker())
}

/// `line` begins with the initiating verb.
pub open spec fn initiates(line: Seq<char>) -> bool {
    has_prefix(line, invite_verb())
}

/// `line` is empty.
pub open spec fn blank(line: Seq<char>) -> bool {
    line.len() == 0
}

/// `line` begins with one of the prefixes of a session description.
pub open spec fn attachment_line(line: Seq<char>) -> bool {
    exists|i: int|
        0 <= i < attachment_prefixes().len() && has_prefix(line, #[trigger] attachment_prefixes()[i])
}

/// A line that holds the version token is not blank.
pub proof fn lemma_message_start_not_blank(line: Seq<char>)
    requires
        starts_message(line),
    ensures
        !blank(line),
{
}

/// A line of a session description is not blank.
pub proof fn lemma_attachment_line_not_blank(line: Seq<char>)
    requires
        attachment_line(line),
    ensures
        !blank(line),
{
    let i = choose|i: int|
        0 <= i < attachment_prefixes().len() && has_prefix(line, #[trigger] attachment_prefixes()[i]);
    assert(attachment_prefixes()[i].len() == 2);
}

/// Tells whether `line` is the first line of a message.
pub fn is_message_start(line: &[char]) -> (b: bool)
    ensures
        b == starts_message(line@),
{
    let marker: [char; 7] = ['S', 'I', 'P', '/', '2', '.', '0'];
    contains(line, marker.as_slice())
}

/// Tells whether `line` begins with the initiating verb.
pub fn is_initiating(line: &[char]) -> (b: bool)
    ensures
        b == initiates(line@),
{
    let verb: [char; 6] = ['I', 'N', 'V', 'I', 'T', 'E'];
    starts_with(line, verb.as_slice())
}

/// Tells whether `line` is empty.
pub fn is_blank(line: &[char]) -> (b: bool)
    ensures
        b == blank(line@),
{
    line.len() == 0
}

/// Tells whether `line` begins with one of the prefixes of a session
/// description.
pub fn is_attachment_line(line: &[char]) -> (b: bool)
    ensures
        b == attachment_line(line@),
{
    let kinds: [char; 15] = [
        'v', 'o', 's', 'i', 'u', 'e', 'p', 'c', 'b', 'z', 'k', 'a', 't', 'r', 'm',
    ];
    let mut i: usize = 0;
    while i < 15
        invariant
            i <= 15,
            attachment_prefixes().len() == 15,
            forall|j: int| 0 <= j < 15 ==> #[trigger] attachment_prefixes()[j] == seq![kinds@[j], '='],
            forall|j: int| 0 <= j < i ==> !has_prefix(line@, #[trigger] attachment_prefixes()[j]),
        decreases 15 - i,
    {
        let prefix: [char; 2] = [kinds[i], '='];
        if starts_with(line, prefix.as_slice()) {
            return true;
        }
        i += 1;
    }
    false
}

} // verus!
