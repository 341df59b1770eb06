use cir_trace::classify::{is_attachment_line, is_blank, is_initiating, is_message_start};
use cir_trace::text::{
    after_last, chars_of, contains, find, find_line_end, is_whitespace, lines, matches_at, pieces,
    starts_with, string_of, trim, without_cr,
};

fn c(s: &str) -> Vec<char> {
    s.chars().collect()
}

#[test]
fn chars_of_gives_the_characters() {
    assert_eq!(chars_of("aß☎\n"), vec!['a', 'ß', '☎', '\n']);
    assert_eq!(chars_of(""), Vec::<char>::new());
}

#[test]
fn string_of_gives_the_string() {
    assert_eq!(string_of(&['a', 'ß', '☎', '\n']), "aß☎\n");
    assert_eq!(string_of(&[]), "");
    assert_eq!(string_of(&chars_of("round trip")), "round trip");
}

#[test]
fn matches_at_compares_in_place() {
    assert!(matches_at(&c("hello"), &c("ell"), 1));
    assert!(!matches_at(&c("hello"), &c("ell"), 0));
    assert!(!matches_at(&c("hello"), &c("llo!"), 2));
    assert!(matches_at(&c("hello"), &c(""), 5));
    assert!(!matches_at(&c("hello"), &c(""), 6));
    assert!(!matches_at(&c("hello"), &c("o"), usize::MAX));
}

#[test]
fn starts_with_is_a_prefix_test() {
    assert!(starts_with(&c("INVITE sip"), &c("INVITE")));
    assert!(!starts_with(&c(" INVITE sip"), &c("INVITE")));
    assert!(!starts_with(&c("INV"), &c("INVITE")));
    assert!(starts_with(&c(""), &c("")));
}

#[test]
fn find_gives_the_leftmost_position() {
    assert_eq!(find(&c("abcabc"), &c("bc")), Some(1));
    assert_eq!(find(&c("abcabc"), &c("abc")), Some(0));
    assert_eq!(find(&c("abcabc"), &c("cab")), Some(2));
    assert_eq!(find(&c("abcabc"), &c("")), Some(0));
    assert_eq!(find(&c(""), &c("")), Some(0));
    assert_eq!(find(&c("abc"), &c("abcd")), None);
    assert_eq!(find(&c("aaab"), &c("aab")), Some(1));
    assert_eq!(find(&c("xyz"), &c("q")), None);
}

#[test]
fn contains_says_whether_it_occurs() {
    assert!(contains(&c("a SIP/2.0 b"), &c("SIP/2.0")));
    assert!(!contains(&c("a SIP/2.1 b"), &c("SIP/2.0")));
    assert!(contains(&c("abc"), &c("")));
}

#[test]
fn after_last_gives_the_last_segment() {
    assert_eq!(after_last(&c(" /home/omni/bin/ibcf"), '/'), &c("ibcf")[..]);
    assert_eq!(after_last(&c("plain"), '/'), &c("plain")[..]);
    assert_eq!(after_last(&c("ends/"), '/'), &c("")[..]);
    assert_eq!(after_last(&c(""), '/'), &c("")[..]);
}

#[test]
fn find_line_end_stops_at_the_line_feed() {
    let t = c("ab\ncd\n");
    assert_eq!(find_line_end(&t, 0), 2);
    assert_eq!(find_line_end(&t, 2), 2);
    assert_eq!(find_line_end(&t, 3), 5);
    assert_eq!(find_line_end(&t, 6), 6);
    assert_eq!(find_line_end(&c("abc"), 1), 3);
}

#[test]
fn without_cr_strips_one_carriage_return() {
    assert_eq!(without_cr(&c("ab\r")), &c("ab")[..]);
    assert_eq!(without_cr(&c("ab\r\r")), &c("ab\r")[..]);
    assert_eq!(without_cr(&c("a\rb")), &c("a\rb")[..]);
    assert_eq!(without_cr(&c("")), &c("")[..]);
}

#[test]
fn message_start_needs_the_version_token() {
    assert!(is_message_start(&c("INVITE sip:bob@example.com SIP/2.0")));
    assert!(is_message_start(&c("SIP/2.0 200 OK")));
    assert!(is_message_start(&c("xSIP/2.0x")));
    assert!(!is_message_start(&c("INVITE sip:bob@example.com SIP/2.1")));
    assert!(!is_message_start(&c("sip/2.0")));
    assert!(!is_message_start(&c("")));
}

#[test]
fn initiating_needs_the_verb_in_front() {
    assert!(is_initiating(&c("INVITE sip:bob SIP/2.0")));
    assert!(is_initiating(&c("INVITE")));
    assert!(!is_initiating(&c(" INVITE sip:bob SIP/2.0")));
    assert!(!is_initiating(&c("invite sip:bob SIP/2.0")));
    assert!(!is_initiating(&c("ACK sip:bob SIP/2.0")));
    assert!(!is_initiating(&c("")));
}

#[test]
fn blank_is_empty() {
    assert!(is_blank(&c("")));
    assert!(!is_blank(&c(" ")));
    assert!(!is_blank(&c("\r")));
}

#[test]
fn attachment_line_needs_a_known_prefix() {
    for p in ["v", "o", "s", "i", "u", "e", "p", "c", "b", "z", "k", "a", "t", "r", "m"] {
        assert!(is_attachment_line(&c(&format!("{}=value", p))), "{}", p);
        assert!(is_attachment_line(&c(&format!("{}=", p))), "{}", p);
        assert!(!is_attachment_line(&c(&format!("{} =value", p))), "{}", p);
        assert!(!is_attachment_line(&c(&format!(" {}=value", p))), "{}", p);
        assert!(!is_attachment_line(&c(p)), "{}", p);
    }
    for p in ["x", "V", "d", "=", "1", "garbage"] {
        assert!(!is_attachment_line(&c(&format!("{}=value", p))), "{}", p);
    }
    assert!(!is_attachment_line(&c("")));
    assert!(!is_attachment_line(&c("garbage")));
}

#[test]
fn long_line_is_classified() {
    let mut line = "x".repeat(100_000);
    line.push_str("SIP/2.0");
    assert!(is_message_start(&c(&line)));
    assert!(!is_initiating(&c(&line)));
    assert!(!is_attachment_line(&c(&line)));
}

const TEXTS: [&str; 16] = [
    "",
    "\n",
    "a",
    "a\n",
    "a\nb",
    "a\nb\n",
    "a\r\nb\r\n",
    "a\r",
    "a\r\r\n",
    "\r\n",
    "\r",
    "\n\n\n",
    "a\n\rb\n\r",
    "\n\r\n\rx",
    "zoë ☎\r\nend",
    "one\n\ntwo\r\n\r\nthree",
];

#[test]
fn lines_are_those_of_the_standard_library() {
    for text in TEXTS {
        let got: Vec<String> = lines(&c(text)).iter().map(|l| l.iter().collect()).collect();
        let expected: Vec<String> = text.lines().map(|l| l.to_string()).collect();
        assert_eq!(got, expected, "{:?}", text);
    }
}

#[test]
fn lines_of_a_small_text() {
    let got: Vec<String> = lines(&c("a\r\n\nb\r")).iter().map(|l| l.iter().collect()).collect();
    assert_eq!(got, vec!["a".to_string(), "".to_string(), "b\r".to_string()]);
}

#[test]
fn pieces_are_cut_at_every_line_feed() {
    for text in TEXTS {
        let got: Vec<String> = pieces(&c(text)).iter().map(|l| l.iter().collect()).collect();
        let expected: Vec<String> = text.split('\n').map(|l| l.to_string()).collect();
        assert_eq!(got, expected, "{:?}", text);
    }
}

#[test]
fn pieces_of_a_small_text() {
    let got: Vec<String> = pieces(&c("a\r\n\nb\n")).iter().map(|l| l.iter().collect()).collect();
    assert_eq!(got, vec!["a\r".to_string(), "".to_string(), "b".to_string(), "".to_string()]);
}

#[test]
fn white_space_is_that_of_the_standard_library() {
    for c in '\u{0}'..=char::MAX {
        assert_eq!(is_whitespace(c), c.is_whitespace(), "{:?}", c);
    }
}

#[test]
fn trim_takes_the_white_space_from_both_ends() {
    assert_eq!(trim(&c("  12:34\n")), &c("12:34")[..]);
    assert_eq!(trim(&c("12:34")), &c("12:34")[..]);
    assert_eq!(trim(&c("\t a b \r\n")), &c("a b")[..]);
    assert_eq!(trim(&c(" \n ")), &c("")[..]);
    assert_eq!(trim(&c("")), &c("")[..]);
    assert_eq!(trim(&c("\u{3000}x\u{a0}")), &c("x")[..]);
}

#[test]
fn trim_is_that_of_the_standard_library() {
    for text in TEXTS {
        let got: String = trim(&c(text)).iter().collect();
        assert_eq!(got, text.trim(), "{:?}", text);
    }
    for text in [" a ", "\u{2003}\u{2028}b\u{85}", "  ", " \u{200b} ", "x \u{feff}"] {
        let got: String = trim(&c(text)).iter().collect();
        assert_eq!(got, text.trim(), "{:?}", text);
    }
}

#[test]
fn search_is_that_of_the_standard_library() {
    let hays = ["", "a", "abcabc", "aaab", " /home/x -i1 -rname ", "INVITE sip:a SIP/2.0", "ß☎ß☎"];
    let needles = ["", "a", "b", "bc", "aab", "-i", " ", "SIP/2.0", "INVITE", "☎ß", "abcabcd"];
    for hay in hays {
        for needle in needles {
            let h = c(hay);
            let n = c(needle);
            let at = hay.find(needle).map(|bytes| hay[..bytes].chars().count());
            assert_eq!(find(&h, &n), at, "{:?} in {:?}", needle, hay);
            assert_eq!(contains(&h, &n), hay.contains(needle), "{:?} in {:?}", needle, hay);
            assert_eq!(starts_with(&h, &n), hay.starts_with(needle), "{:?} in {:?}", needle, hay);
        }
    }
}
