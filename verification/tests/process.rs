use cir_trace::process::{
    find_process_and_instance, parse_line_with, parse_ps_line, process_details, process_lines,
    PsLineError, PROCESS_DETAILS,
};

const PS_LINE: &str = "omni     28848  0.0  8.6 770804 714432 ?       Sl    2018   0:50 /home/omni/bin/ibcf -i1 -ribcf_core -f/home/etc/ibcf_core.cfg -tpip=254";

fn s(x: &str) -> Option<String> {
    Some(x.to_string())
}

fn five(a: &str, b: &str, c: &str, d: &str, e: &str) -> (String, String, String, String, String) {
    (a.to_string(), b.to_string(), c.to_string(), d.to_string(), e.to_string())
}

#[test]
fn process_name_and_instance_are_found() {
    assert_eq!(find_process_and_instance(PS_LINE), (s("ibcf"), s("ibcf_core"), s("1")));
}

#[test]
fn nothing_is_found_in_an_empty_list() {
    assert_eq!(find_process_and_instance(""), (None, None, None));
}

#[test]
fn each_part_is_looked_for_on_its_own() {
    assert_eq!(find_process_and_instance("x -rname y"), (None, s("name"), None));
    assert_eq!(find_process_and_instance("x -i12 y"), (None, None, s("12")));
    assert_eq!(find_process_and_instance("u /home/a/b/proc -i3"), (s("proc"), None, None));
    assert_eq!(find_process_and_instance("u /home/a/b/proc -i3 "), (s("proc"), None, s("3")));
}

#[test]
fn a_flag_needs_a_blank_behind_it() {
    assert_eq!(find_process_and_instance("-rname"), (None, None, None));
    assert_eq!(find_process_and_instance("-r "), (None, s(""), None));
    assert_eq!(find_process_and_instance("-i -r "), (None, s(""), s("")));
}

#[test]
fn the_first_flag_counts() {
    assert_eq!(
        find_process_and_instance("a -i1 -i2 -rx -ry /home/p -i9 "),
        (s("p"), s("x"), s("1"))
    );
}

#[test]
fn the_path_ends_at_the_first_instance_flag_behind_it() {
    assert_eq!(find_process_and_instance(" -i /home/x/y -i"), (s("y"), None, s("")));
    assert_eq!(find_process_and_instance(" /home -i"), (s("home"), None, None));
    assert_eq!(find_process_and_instance(" /home/ -i"), (s(""), None, None));
    assert_eq!(find_process_and_instance(" /home/x"), (None, None, None));
}

#[test]
fn ps_line_is_parsed() {
    assert_eq!(parse_ps_line(PS_LINE), Ok(five("omni", "28848", "ibcf", "1", "ibcf_core")));
}

#[test]
fn ps_line_without_instance_gives_not_available() {
    assert_eq!(
        parse_ps_line("root 7 0.0 /home/omni/bin/stup"),
        Ok(five("root", "7", "stup", "n/a", "n/a"))
    );
    assert_eq!(
        parse_ps_line("root 7 0.0 /home/omni/bin/gw_sip -i22"),
        Ok(five("root", "7", "gw_sip", "22", "n/a"))
    );
    assert_eq!(
        parse_ps_line("root 7 0.0 /home/omni/bin/gw_sip -rmain"),
        Ok(five("root", "7", "gw_sip", "n/a", "main"))
    );
}

#[test]
fn ps_line_with_long_number_keeps_five_digits() {
    assert_eq!(
        parse_ps_line("omni 1234567 /home/omni/bin/ibcf -i1"),
        Ok(five("omni", "12345", "ibcf", "1", "n/a"))
    );
}

#[test]
fn ps_line_that_does_not_match_is_refused() {
    assert_eq!(parse_ps_line(""), Err(PsLineError::NoMatch));
    assert_eq!(parse_ps_line("omni no number /home/omni/bin/ibcf"), Err(PsLineError::NoMatch));
    assert_eq!(parse_ps_line("omni 12 /usr/bin/ibcf"), Err(PsLineError::NoMatch));
}

#[test]
fn pattern_that_is_no_regular_expression_is_refused() {
    assert_eq!(parse_line_with("(", PS_LINE), Err(PsLineError::Pattern));
    assert_eq!(parse_line_with("(", ""), Err(PsLineError::Pattern));
}

#[test]
fn other_pattern_reads_the_groups_it_names() {
    let pattern = r"^(?P<process_number>\d+) (?P<process_owner>\w+)(?: (?P<instance_name>\w+))?$";
    assert_eq!(parse_line_with(pattern, "12 omni"), Ok(five("omni", "12", "n/a", "n/a", "n/a")));
    assert_eq!(
        parse_line_with(pattern, "12 omni core"),
        Ok(five("omni", "12", "n/a", "n/a", "core"))
    );
    assert_eq!(parse_line_with(pattern, "omni 12"), Err(PsLineError::NoMatch));
    assert_eq!(parse_line_with(PROCESS_DETAILS, PS_LINE), parse_ps_line(PS_LINE));
}

#[test]
fn details_take_the_groups_in_order() {
    let groups = vec![s("a"), None, s("c"), None, s("")];
    assert_eq!(process_details(&groups), five("a", "n/a", "c", "n/a", ""));
    let few = vec![None, s("b")];
    assert_eq!(process_details(&few), five("n/a", "b", "n/a", "n/a", "n/a"));
    let many = vec![s("1"), s("2"), s("3"), s("4"), s("5"), s("6")];
    assert_eq!(process_details(&many), five("1", "2", "3", "4", "5"));
    assert_eq!(process_details(&Vec::new()), five("n/a", "n/a", "n/a", "n/a", "n/a"));
}

#[test]
fn process_lines_leave_out_the_search_and_the_empty_lines() {
    let output = "omni 1 /home/omni/bin/ibcf -i1\nomni 2 grep ibcf\n\nomni 3 /home/omni/bin/ibcf -i2\n";
    assert_eq!(
        process_lines(output),
        vec![
            "omni 1 /home/omni/bin/ibcf -i1".to_string(),
            "omni 3 /home/omni/bin/ibcf -i2".to_string(),
        ]
    );
}

#[test]
fn process_lines_keep_a_carriage_return() {
    assert_eq!(process_lines("a\r\nb"), vec!["a\r".to_string(), "b".to_string()]);
    assert_eq!(process_lines(""), Vec::<String>::new());
    assert_eq!(process_lines("grep"), Vec::<String>::new());
    assert_eq!(process_lines("\n\n"), Vec::<String>::new());
}
