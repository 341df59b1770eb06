use cir_trace::sip_parse::{SipPacket, SipParser};

fn extract(trace: &str, terms: &[&str]) -> Vec<String> {
    let packets: Vec<SipPacket> = SipParser::new().extract_sip(trace, terms, true);
    packets.iter().map(|p| p.to_string()).collect()
}

fn lines_of_header(packet: &SipPacket) -> Vec<String> {
    packet.header().0.clone()
}

const INVITE_WITH_SDP: &str =
    "INVITE sip:bob@example.com SIP/2.0\nCall-ID: 1\n\nv=0\no=alice 1 1 IN IP4 host\n\n";

#[test]
fn invite_with_session_description_is_kept() {
    let packets = SipParser::new().extract_sip(INVITE_WITH_SDP, &["1"], true);
    assert_eq!(packets.len(), 1);
    assert_eq!(
        lines_of_header(&packets[0]),
        vec!["INVITE sip:bob@example.com SIP/2.0".to_string(), "Call-ID: 1".to_string()]
    );
    let sdp = packets[0].sdp().expect("the packet has a session description");
    assert_eq!(sdp.0, vec!["v=0".to_string(), "o=alice 1 1 IN IP4 host".to_string()]);
    assert_eq!(
        packets[0].to_string(),
        "INVITE sip:bob@example.com SIP/2.0\nCall-ID: 1\n\nv=0\no=alice 1 1 IN IP4 host\n"
    );
}

#[test]
fn invite_that_misses_the_terms_is_dropped() {
    assert!(extract(INVITE_WITH_SDP, &["999"]).is_empty());
}

#[test]
fn malformed_session_description_drops_the_message() {
    let trace = "INVITE sip:bob@example.com SIP/2.0\nCall-ID: 1\n\nv=0\ngarbage\n\n";
    assert!(extract(trace, &["1"]).is_empty());
}

#[test]
fn malformed_line_after_several_good_lines_still_drops() {
    let trace = "INVITE sip:a SIP/2.0\nCall-ID: 7\n\nv=0\no=x\ns=-\nc=IN IP4 1.2.3.4\nx-bad\nm=audio\n\n";
    assert!(extract(trace, &[]).is_empty());
}

#[test]
fn trace_without_message_start_yields_nothing() {
    let trace = "debug: tick\nINVITE without the version token\n\nv=0\n\nCall-ID: 1\n\n";
    assert!(extract(trace, &[]).is_empty());
    assert!(extract(trace, &["1"]).is_empty());
}

#[test]
fn empty_trace_yields_nothing() {
    assert!(extract("", &[]).is_empty());
    assert!(extract("\n\n\n", &["x"]).is_empty());
}

#[test]
fn bare_invite_yields_packet_without_session_description() {
    let trace = "INVITE sip:bob SIP/2.0\nCall-ID: 42\n\n\n";
    let packets = SipParser::new().extract_sip(trace, &["42"], true);
    assert_eq!(packets.len(), 1);
    assert!(packets[0].sdp().is_none());
    assert_eq!(packets[0].to_string(), "INVITE sip:bob SIP/2.0\nCall-ID: 42\n");
}

#[test]
fn without_terms_every_invite_is_kept_once() {
    let trace = "INVITE sip:a SIP/2.0\nCall-ID: a\n\nv=0\n\n\
                 noise\n\
                 INVITE sip:b SIP/2.0\nCall-ID: b\n\n\n\
                 INVITE sip:c SIP/2.0\nCall-ID: c\n\nv=0\nm=audio 1 RTP 0\n\n";
    assert_eq!(
        extract(trace, &[]),
        vec![
            "INVITE sip:a SIP/2.0\nCall-ID: a\n\nv=0\n".to_string(),
            "INVITE sip:b SIP/2.0\nCall-ID: b\n".to_string(),
            "INVITE sip:c SIP/2.0\nCall-ID: c\n\nv=0\nm=audio 1 RTP 0\n".to_string(),
        ]
    );
}

#[test]
fn packets_come_in_trace_order() {
    let trace = "INVITE sip:z SIP/2.0\nCall-ID: z\n\n\n\
                 INVITE sip:a SIP/2.0\nCall-ID: a\n\n\n\
                 SIP/2.0 200 OK\nCall-ID: a\n\n\n";
    assert_eq!(
        extract(trace, &[]),
        vec![
            "INVITE sip:z SIP/2.0\nCall-ID: z\n".to_string(),
            "INVITE sip:a SIP/2.0\nCall-ID: a\n".to_string(),
            "SIP/2.0 200 OK\nCall-ID: a\n".to_string(),
        ]
    );
}

#[test]
fn followup_of_the_current_call_is_kept() {
    let trace = "INVITE sip:bob SIP/2.0\nCall-ID: 5\n\n\n\
                 SIP/2.0 180 Ringing\nCall-ID: 5\n\nv=0\n\n\
                 SIP/2.0 200 OK\nCall-ID: 6\n\n\n";
    assert_eq!(
        extract(trace, &["bob"]),
        vec![
            "INVITE sip:bob SIP/2.0\nCall-ID: 5\n".to_string(),
            "SIP/2.0 180 Ringing\nCall-ID: 5\n\nv=0\n".to_string(),
        ]
    );
}

#[test]
fn followup_of_a_replaced_call_is_dropped() {
    let trace = "INVITE sip:bob SIP/2.0\nCall-ID: first\n\n\n\
                 INVITE sip:bob SIP/2.0\nCall-ID: second\n\n\n\
                 SIP/2.0 200 OK\nCall-ID: first\n\n\n\
                 SIP/2.0 200 OK\nCall-ID: second\n\n\n";
    assert_eq!(
        extract(trace, &["bob"]),
        vec![
            "INVITE sip:bob SIP/2.0\nCall-ID: first\n".to_string(),
            "INVITE sip:bob SIP/2.0\nCall-ID: second\n".to_string(),
            "SIP/2.0 200 OK\nCall-ID: second\n".to_string(),
        ]
    );
}

#[test]
fn invite_that_misses_the_terms_leaves_the_current_call() {
    let trace = "INVITE sip:bob SIP/2.0\nCall-ID: kept\n\n\n\
                 INVITE sip:eve SIP/2.0\nCall-ID: other\n\n\n\
                 SIP/2.0 200 OK\nCall-ID: kept\n\n\n";
    assert_eq!(
        extract(trace, &["bob"]),
        vec![
            "INVITE sip:bob SIP/2.0\nCall-ID: kept\n".to_string(),
            "SIP/2.0 200 OK\nCall-ID: kept\n".to_string(),
        ]
    );
}

#[test]
fn followup_without_a_current_call_is_dropped() {
    let with_id = "SIP/2.0 200 OK\nCall-ID: 1\n\n\n";
    assert!(extract(with_id, &[]).is_empty());
    let without_id = "SIP/2.0 200 OK\nVia: x\n\n\n";
    assert!(extract(without_id, &[]).is_empty());
}

#[test]
fn invite_without_call_id_clears_the_current_call() {
    let trace = "INVITE sip:a SIP/2.0\nCall-ID: 1\n\n\n\
                 INVITE sip:b SIP/2.0\nVia: x\n\n\n\
                 SIP/2.0 200 OK\nCall-ID: 1\n\n\n\
                 SIP/2.0 200 OK\nVia: y\n\n\n";
    assert_eq!(
        extract(trace, &[]),
        vec![
            "INVITE sip:a SIP/2.0\nCall-ID: 1\n".to_string(),
            "INVITE sip:b SIP/2.0\nVia: x\n".to_string(),
        ]
    );
}

#[test]
fn unfinished_message_at_the_end_is_dropped() {
    assert!(extract("INVITE sip:a SIP/2.0\nCall-ID: 1", &[]).is_empty());
    assert!(extract("INVITE sip:a SIP/2.0\nCall-ID: 1\n\n", &[]).is_empty());
    assert!(extract("INVITE sip:a SIP/2.0\nCall-ID: 1\n\nv=0\n", &[]).is_empty());
    assert_eq!(extract("INVITE sip:a SIP/2.0\nCall-ID: 1\n\nv=0\n\n", &[]).len(), 1);
}

#[test]
fn packet_is_complete_at_its_last_blank_line() {
    let trace = "INVITE sip:a SIP/2.0\nCall-ID: 1\n\nv=0\n\nINVITE sip:b SIP/2.0\nCall-ID: 2\n\n\n";
    assert_eq!(
        extract(trace, &[]),
        vec![
            "INVITE sip:a SIP/2.0\nCall-ID: 1\n\nv=0\n".to_string(),
            "INVITE sip:b SIP/2.0\nCall-ID: 2\n".to_string(),
        ]
    );
}

#[test]
fn terms_match_by_line_and_by_case() {
    let trace = "INVITE sip:bob SIP/2.0\nCall-ID: 12\nFrom: 34\n\n\n";
    assert_eq!(extract(trace, &["Bob", "34"]).len(), 1);
    assert!(extract(trace, &["Bob"]).is_empty());
    assert!(extract(trace, &["1234"]).is_empty());
    assert!(extract(trace, &["12\nFrom"]).is_empty());
    assert_eq!(extract(trace, &["nothing", "From: 3"]).len(), 1);
    assert_eq!(extract(trace, &[""]).len(), 1);
}

#[test]
fn carriage_returns_before_line_feeds_are_no_part_of_a_line() {
    let trace = "INVITE sip:a SIP/2.0\r\nCall-ID: 1\r\n\r\nv=0\r\n\r\n";
    assert_eq!(extract(trace, &[]), vec!["INVITE sip:a SIP/2.0\nCall-ID: 1\n\nv=0\n".to_string()]);
}

#[test]
fn lone_carriage_return_keeps_a_line_from_being_blank() {
    let trace = "INVITE sip:a SIP/2.0\nCall-ID: 1\n\r\r\n\n\n";
    assert_eq!(
        extract(trace, &[]),
        vec!["INVITE sip:a SIP/2.0\nCall-ID: 1\n\r\n".to_string()]
    );
}

#[test]
fn message_start_is_found_anywhere_in_the_line() {
    let trace = "12:00:01 recv INVITE sip:a SIP/2.0\nCall-ID: 1\n\n\n";
    // The line holds the version token but does not begin with the verb: the
    // message does not initiate, and there is no current call.
    assert!(extract(trace, &[]).is_empty());
}

#[test]
fn text_beyond_ascii_is_kept_as_it_is() {
    let trace = "INVITE sip:zoë SIP/2.0\nCall-ID: 1\nSubject: grüße ☎\n\na=名前\n\n";
    assert_eq!(
        extract(trace, &["☎"]),
        vec!["INVITE sip:zoë SIP/2.0\nCall-ID: 1\nSubject: grüße ☎\n\na=名前\n".to_string()]
    );
}

#[test]
fn with_sdp_flag_does_not_change_the_result() {
    let a: Vec<String> = SipParser::new()
        .extract_sip(INVITE_WITH_SDP, &["1"], false)
        .iter()
        .map(|p| p.to_string())
        .collect();
    assert_eq!(a, extract(INVITE_WITH_SDP, &["1"]));
}
