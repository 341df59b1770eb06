//! The scanner that extracts signalling exchanges from a trace, and the
//! packets that it produces.

use vstd::prelude::*;
use vstd::string::StringExecFns;
use crate::classify::{is_attachment_line, is_blank, is_initiating, is_message_start};
use crate::model::{
    call_id, call_id_marker, correlates, extract, join_lines, lemma_step_valid, matches_terms,
    render, run_from, start, step, valid_phase, valid_record, valid_scan, Phase, Record, Scan,
};
use crate::text::{
    char_views, chars_of, contains, line_views, lines, lines_of, occurs_in, slice_views,
    starts_with, str_views, string_of,
};

verus! {

/// The records of `packets`.
pub open spec fn records_of(packets: Seq<SipPacket>) -> Seq<Record> {
    packets.map_values(|p: SipPacket| p@)
}

/// The lines of a message.
#[derive(Debug)]
pub struct SipHeader(pub Vec<String>);

impl View for SipHeader {
    type V = Seq<Seq<char>>;

    open spec fn view(&self) -> Seq<Seq<char>> {
        line_views(self.0@)
    }
}

impl SipHeader {
    /// Appends `header` as the last line.
    pub fn add_header(&mut self, header: String)
        ensures
            final(self)@ == old(self)@.push(header@),
    {
        self.0.push(header);
    }

    /// The first line that begins with `Call-ID`.
    pub fn get_call_id(&self) -> (found: Option<&String>)
        ensures
            match found {
                Some(line) => call_id(self@) == Some(line@),
                None => call_id(self@) is None,
            },
    {
        let marker: [char; 7] = ['C', 'a', 'l', 'l', '-', 'I', 'D'];
        let mut i: usize = 0;
        assert(self@.skip(0) =~= self@);
        while i < self.0.len()
            invariant
                i <= self.0.len(),
                marker@ == call_id_marker(),
                call_id(self@) == call_id(self@.skip(i as int)),
            decreases self.0.len() - i,
        {
            let line = chars_of(self.0[i].as_str());
            if starts_with(line.as_slice(), marker.as_slice()) {
                return Some(&self.0[i]);
            }
            assert(self@.skip(i as int).drop_first() =~= self@.skip(i + 1));
            i += 1;
        }
        None
    }

    /// Tells whether some line holds some of `terms`; with no terms, every
    /// message matches.
    pub fn matches(&self, terms: &Vec<Vec<char>>) -> (found: bool)
        ensures
            found == matches_terms(self@, char_views(terms@)),
    {
        let ghost tv = char_views(terms@);
        if terms.len() == 0 {
            return true;
        }
        let mut i: usize = 0;
        while i < self.0.len()
            invariant
                i <= self.0.len(),
                tv == char_views(terms@),
                tv.len() == terms.len(),
                forall|a: int, b: int|
                    0 <= a < i && 0 <= b < tv.len() ==> !occurs_in(
                        #[trigger] self@[a],
                        #[trigger] tv[b],
                    ),
            decreases self.0.len() - i,
        {
            let line = chars_of(self.0[i].as_str());
            let mut j: usize = 0;
            while j < terms.len()
                invariant
                    j <= terms.len(),
                    i < self.0.len(),
                    line@ == self@[i as int],
                    tv == char_views(terms@),
                    tv.len() == terms.len(),
                    forall|b: int| 0 <= b < j ==> !occurs_in(line@, #[trigger] tv[b]),
                decreases terms.len() - j,
            {
                assert(tv[j as int] == terms[j as int]@);
                if contains(line.as_slice(), terms[j].as_slice()) {
                    return true;
                }
                j += 1;
            }
            i += 1;
        }
        false
    }
}

/// The lines of a session description.
#[derive(Debug)]
pub struct Sdp(pub Vec<String>);

impl View for Sdp {
    type V = Seq<Seq<char>>;

    open spec fn view(&self) -> Seq<Seq<char>> {
        line_views(self.0@)
    }
}

/// A message that the scanner kept, with the session description that
/// followed it, if one did.
#[derive(Debug)]
pub struct SipPacket {
    header: SipHeader,
    sdp: Option<Sdp>,
}

impl View for SipPacket {
    type V = Record;

    closed spec fn view(&self) -> Record {
        Record {
            message: self.header@,
            attachment: match self.sdp {
                Some(s) => Some(s@),
                None => None,
            },
        }
    }
}

/// Appends each of `lines` to `out`, each followed by a line feed.
fn append_lines(out: &mut String, lines: &Vec<String>)
    ensures
        final(out)@ == old(out)@ + join_lines(line_views(lines@)),
{
    let ghost all = line_views(lines@);
    let mut i: usize = 0;
    while i < lines.len()
        invariant
            i <= lines.len(),
            all == line_views(lines@),
            out@ == old(out)@ + join_lines(all.take(i as int)),
        decreases lines.len() - i,
    {
        out.append(lines[i].as_str());
        out.append("\n");
        proof {
            reveal_strlit("\n");
            assert(all.take(i + 1).drop_last() =~= all.take(i as int));
        }
        i += 1;
    }
    assert(all.take(lines.len() as int) =~= all);
}

impl SipPacket {
    /// The lines of the message.
    pub fn header(&self) -> (h: &SipHeader)
        ensures
            h@ == self@.message,
    {
        &self.header
    }

    /// The lines of the session description, if the packet has one.
    pub fn sdp(&self) -> (s: Option<&Sdp>)
        ensures
            match s {
                Some(d) => self@.attachment == Some(d@),
                None => self@.attachment is None,
            },
    {
        match &self.sdp {
            Some(s) => Some(s),
            None => None,
        }
    }

    /// The text of the packet: each line of the message with a line feed
    /// after it, then, if there is a session description, one empty line and
    /// each line of the description with a line feed after it.
    pub fn to_string(&self) -> (out: String)
        ensures
            out@ == render(self@),
    {
        let mut out = String::new();
        append_lines(&mut out, &self.header.0);
        match &self.sdp {
            Some(s) => {
                out.append("\n");
                proof {
                    reveal_strlit("\n");
                }
                append_lines(&mut out, &s.0);
            },
            None => {},
        }
        out
    }
}

/// What the scanner holds between two lines.
#[derive(Debug)]
enum SipParseState {
    /// Waiting for the first line of a message.
    Idle,
    /// Collecting an initiating message.
    InviteSipParse(SipHeader),
    /// Collecting a message that does not initiate.
    SipParse(SipHeader),
    /// Collecting the session description of a message that is kept.
    SdpParse(SipHeader, Sdp),
}

impl View for SipParseState {
    type V = Phase;

    closed spec fn view(&self) -> Phase {
        match self {
            SipParseState::Idle => Phase::Idle,
            SipParseState::InviteSipParse(h) => Phase::Initiating { message: h@ },
            SipParseState::SipParse(h) => Phase::Followup { message: h@ },
            SipParseState::SdpParse(h, s) => Phase::Attachment { message: h@, attachment: s@ },
        }
    }
}

/// The texts of `term` as characters.
fn term_chars(term: &[&str]) -> (out: Vec<Vec<char>>)
    ensures
        char_views(out@) == str_views(term@),
{
    let mut out: Vec<Vec<char>> = Vec::new();
    let mut i: usize = 0;
    while i < term.len()
        invariant
            i <= term.len(),
            char_views(out@) == str_views(term@).take(i as int),
        decreases term.len() - i,
    {
        let ghost before = char_views(out@);
        let t = chars_of(term[i]);
        out.push(t);
        assert(char_views(out@) =~= before.push(term@[i as int]@));
        i += 1;
    }
    out
}

/// The scanner: the phase it is in and the current call identifier.
#[derive(Debug)]
pub struct SipParser {
    state: SipParseState,
    current_call_id: Option<String>,
}

impl SipParser {
    #[verifier::type_invariant]
    spec fn well_formed(self) -> bool {
        valid_phase(self.state@)
    }

    /// The phase that the scanner is in.
    pub closed spec fn phase(&self) -> Phase {
        self.state@
    }

    /// The current call identifier.
    pub closed spec fn key(&self) -> Option<Seq<char>> {
        match self.current_call_id {
            Some(k) => Some(k@),
            None => None,
        }
    }

    /// The scanner together with the records that it has produced.
    pub open spec fn scan(&self, records: Seq<Record>) -> Scan {
        Scan { phase: self.phase(), key: self.key(), records }
    }

    /// A scanner that waits for the first message and has no current call
    /// identifier.
    pub fn new() -> (parser: Self)
        ensures
            parser.phase() == Phase::Idle,
            parser.key() is None,
            parser.scan(Seq::empty()) == start(),
    {
        Self { state: SipParseState::Idle, current_call_id: None }
    }

    /// Reads one line: moves to the next phase, and appends to `packets` the
    /// packet that the line completes, if it completes one.
    fn consume(&mut self, line: &[char], terms: &Vec<Vec<char>>, packets: &mut Vec<SipPacket>)
        requires
            valid_scan(old(self).scan(records_of(old(packets)@))),
        ensures
            final(self).scan(records_of(final(packets)@)) == step(
                old(self).scan(records_of(old(packets)@)),
                line@,
                char_views(terms@),
            ),
            valid_scan(final(self).scan(records_of(final(packets)@))),
    {
        proof {
            lemma_step_valid(self.scan(records_of(packets@)), line@, char_views(terms@));
        }
        let mut state = SipParseState::Idle;
        core::mem::swap(&mut self.state, &mut state);
        let next = match state {
            SipParseState::Idle => {
                if is_message_start(line) {
                    let mut h = SipHeader(Vec::new());
                    h.add_header(string_of(line));
                    assert(h@ =~= seq![line@]);
                    if is_initiating(line) {
                        SipParseState::InviteSipParse(h)
                    } else {
                        SipParseState::SipParse(h)
                    }
                } else {
                    SipParseState::Idle
                }
            },
            SipParseState::InviteSipParse(mut h) => {
                if !is_blank(line) {
                    h.add_header(string_of(line));
                    SipParseState::InviteSipParse(h)
                } else if h.matches(terms) {
                    self.current_call_id = match h.get_call_id() {
                        Some(c) => Some(c.clone()),
                        None => None,
                    };
                    let s = Sdp(Vec::new());
                    assert(s@ =~= Seq::<Seq<char>>::empty());
                    SipParseState::SdpParse(h, s)
                } else {
                    SipParseState::Idle
                }
            },
            SipParseState::SipParse(mut h) => {
                if !is_blank(line) {
                    h.add_header(string_of(line));
                    SipParseState::SipParse(h)
                } else if self.carries_current_call_id(&h) {
                    let s = Sdp(Vec::new());
                    assert(s@ =~= Seq::<Seq<char>>::empty());
                    SipParseState::SdpParse(h, s)
                } else {
                    SipParseState::Idle
                }
            },
            SipParseState::SdpParse(h, mut s) => {
                if is_blank(line) {
                    let ghost records = records_of(packets@);
                    let packet = SipPacket { header: h, sdp: if s.0.len() > 0 {
                        Some(s)
                    } else {
                        None
                    } };
                    packets.push(packet);
                    assert(records_of(packets@) =~= records.push(packet@));
                    SipParseState::Idle
                } else if is_attachment_line(line) {
                    let ghost lines = s@;
                    s.0.push(string_of(line));
                    assert(s@ =~= lines.push(line@));
                    SipParseState::SdpParse(h, s)
                } else {
                    SipParseState::Idle
                }
            },
        };
        self.state = next;
    }

    /// Tells whether `h` carries the current call identifier.
    fn carries_current_call_id(&self, h: &SipHeader) -> (same: bool)
        ensures
            same == correlates(h@, self.key()),
    {
        match (&self.current_call_id, h.get_call_id()) {
            (Some(k), Some(c)) => *k == *c,
            _ => false,
        }
    }

    /// Extracts from `trace` the exchanges that `term` selects.
    ///
    /// The trace is read once, line by line. An initiating message is kept
    /// when one of its lines holds one of the terms, or when there are no
    /// terms; any other message is kept when it carries the call identifier
    /// of the initiating message that was kept last. A kept message becomes a
    /// packet at the blank line that ends its session description. The
    /// packets come in the order in which they were completed, and a message
    /// whose end the trace does not hold yields none. `_with_sdp` does not
    /// change the result.
    pub fn extract_sip(self, trace: &str, term: &[&str], _with_sdp: bool) -> (packets: Vec<
        SipPacket,
    >)
        ensures
            records_of(packets@) == run_from(
                self.scan(Seq::empty()),
                lines_of(trace@),
                str_views(term@),
            ).records,
            self.scan(Seq::empty()) == start() ==> records_of(packets@) == extract(
                lines_of(trace@),
                str_views(term@),
            ),
            forall|i: int| 0 <= i < packets.len() ==> valid_record(#[trigger] packets[i]@),
    {
        let text = chars_of(trace);
        let lines = lines(text.as_slice());
        let terms = term_chars(term);
        let ghost all = lines_of(trace@);
        let ghost tv = str_views(term@);
        let ghost first = self.scan(Seq::empty());
        let mut parser = self;
        let mut packets: Vec<SipPacket> = Vec::new();
        let mut i: usize = 0;
        proof {
            use_type_invariant(&parser);
            assert(records_of(packets@) =~= Seq::<Record>::empty());
        }
        while i < lines.len()
            invariant
                i <= lines.len(),
                all == slice_views(lines@),
                tv == char_views(terms@),
                parser.scan(records_of(packets@)) == run_from(first, all.take(i as int), tv),
                valid_scan(parser.scan(records_of(packets@))),
            decreases lines.len() - i,
        {
            assert(all.take(i + 1).drop_last() =~= all.take(i as int));
            parser.consume(lines[i], &terms, &mut packets);
            i += 1;
        }
        proof {
            assert(all.take(lines.len() as int) =~= all);
            let end = parser.scan(records_of(packets@));
            assert forall|k: int| 0 <= k < packets.len() implies valid_record(
                #[trigger] packets[k]@,
            ) by {
                assert(end.records[k] == packets[k]@);
            }
        }
        packets
    }
}

} // verus!
