//! The decisions of a tracing session: which processes to list, which
//! instance to put into debug mode, whose log to read, and whether to try
//! again to reach the host.

use vstd::prelude::*;
use vstd::string::StringExecFns;
use crate::text::line_views;

verus! {

/// How long the host is tried, in milliseconds, before the connection is
/// given up.
pub const CONNECT_TIMEOUT_MILLIS: u128 = 5000;

/// What the process list is searched for, by what the user asked for; `None`
/// where no process list is needed.
pub open spec fn filters_of(
    process: Option<Seq<char>>,
    process_name: Option<Seq<char>>,
    instance: Option<Seq<char>>,
) -> Option<Seq<Seq<char>>> {
    match (process, process_name, instance) {
        (None, Some(name), None) => Some(seq![name]),
        (Some(p), None, Some(i)) => Some(seq![p, seq!['i'] + i]),
        (Some(p), None, None) => Some(seq![p]),
        _ => None,
    }
}

/// The text of `s`, if there is one.
pub open spec fn str_of(s: Option<&str>) -> Option<Seq<char>> {
    match s {
        Some(t) => Some(t@),
        None => None,
    }
}

/// The texts of `filters`, if there are any.
pub open spec fn filter_views(filters: Option<Vec<String>>) -> Option<Seq<Seq<char>>> {
    match filters {
        Some(f) => Some(line_views(f@)),
        None => None,
    }
}

/// What the process list is searched for.
///
/// With the name of an instance alone, that name; with a process and the
/// number of an instance, the process and `i` followed by the number; with a
/// process alone, the process. With anything else no process list is needed.
pub fn process_filters(
    process: Option<&str>,
    process_name: Option<&str>,
    instance: Option<&str>,
) -> (filters: Option<Vec<String>>)
    ensures
        filter_views(filters) == filters_of(str_of(process), str_of(process_name), str_of(instance)),
{
    match (process, process_name, instance) {
        (None, Some(name), None) => {
            let mut filters: Vec<String> = Vec::new();
            filters.push(String::from_str(name));
            Some(filters)
        },
        (Some(p), None, Some(i)) => {
            let mut numbered = String::from_str("i");
            numbered.append(i);
            proof {
                reveal_strlit("i");
                assert("i"@ =~= seq!['i']);
            }
            let mut filters: Vec<String> = Vec::new();
            filters.push(String::from_str(p));
            filters.push(numbered);
            Some(filters)
        },
        (Some(p), None, None) => {
            let mut filters: Vec<String> = Vec::new();
            filters.push(String::from_str(p));
            Some(filters)
        },
        _ => None,
    }
}

/// The instance to put into debug mode: the process and the number of the
/// instance, where the process list gave both.
pub fn debug_target<'a>(found: &'a (Option<String>, Option<String>, Option<String>)) -> (target:
    Option<(&'a String, &'a String)>)
    ensures
        match target {
            Some((process, instance)) => found.0 == Some(*process) && found.2 == Some(*instance),
            None => found.0 is None || found.2 is None,
        },
{
    match (&found.0, &found.2) {
        (Some(process), Some(instance)) => Some((process, instance)),
        _ => None,
    }
}

/// The name under which the traced process logs: the name of the instance
/// where the process list gave one, else the name of the process.
pub fn log_name<'a>(found: &'a (Option<String>, Option<String>, Option<String>)) -> (name: Option<
    &'a String,
>)
    ensures
        match name {
            Some(n) => if found.1 is Some {
                found.1 == Some(*n)
            } else {
                found.0 == Some(*n)
            },
            None => found.0 is None && found.1 is None,
        },
{
    match (&found.0, &found.1) {
        (_, Some(name)) => Some(name),
        (Some(process), None) => Some(process),
        (None, None) => None,
    }
}

/// Tells whether the host is tried again after an attempt that failed
/// `elapsed_millis` milliseconds after the first attempt began: it is, until
/// the timeout has passed.
pub fn retry_connection(elapsed_millis: u128) -> (again: bool)
    ensures
        again == (elapsed_millis < CONNECT_TIMEOUT_MILLIS),
{
    elapsed_millis < CONNECT_TIMEOUT_MILLIS
}

} // verus!
