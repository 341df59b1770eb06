//! The texts of the commands that are run on the remote host.

use vstd::prelude::*;
use vstd::string::StringExecFns;
use crate::text::{chars_of, str_views, string_of, trim, trimmed};

verus! {

/// The command that prints the time of the remote host, to the minute.
pub const REMOTE_TIME_COMMAND: &'static str = "date \"+%H:%M\"";

/// The command that prints the name of the remote host.
pub const HOSTNAME_COMMAND: &'static str = "uname -n";

/// The processes whose state the status report shows.
pub const CIRPACK_PROCESSES: [&'static str; 12] = [
    "ibcf",
    "bgcf",
    "gw_sip",
    "imstscfg",
    "hactrl",
    "stup",
    "s7pnumcfg",
    "goblin",
    "goblout",
    "transit",
    "extnti_grouper",
    "ipc2netgrouper",
];

/// The command that switches the debug trace of an instance on.
pub open spec fn enable_debug_text(name: Seq<char>, instance: Seq<char>) -> Seq<char> {
    "mgt_cscf -name="@ + name + " -i"@ + instance + " -debug=3 -loglevel=0"@
}

/// The command that switches the debug trace of an instance off.
pub open spec fn disable_debug_text(name: Seq<char>, instance: Seq<char>) -> Seq<char> {
    "mgt_cscf -name="@ + name + " -i"@ + instance + " -debug=0 -loglevel=1"@
}

/// One filter of the process list for each of `greps`, in order.
pub open spec fn grep_filters(greps: Seq<Seq<char>>) -> Seq<char>
    decreases greps.len(),
{
    if greps.len() == 0 {
        Seq::empty()
    } else {
        grep_filters(greps.drop_last()) + "|grep "@ + greps.last() + " "@
    }
}

/// The command that lists the processes that every one of `greps` selects.
pub open spec fn ps_list_text(greps: Seq<Seq<char>>) -> Seq<char> {
    "ps aux "@ + grep_filters(greps)
}

/// The command that prints the log of a process from the first line that
/// holds `start_time`.
pub open spec fn trace_text(process_name: Seq<char>, start_time: Seq<char>) -> Seq<char> {
    "tail -n +$(grep -m 1 -n "@ + start_time + " /home/log/"@ + process_name
        + ".1 | cut -d':' -f 1) /home/log/"@ + process_name + ".1"@
}

/// The command that lists the instances of one process.
pub open spec fn process_status_text(process: Seq<char>) -> Seq<char> {
    "ps aux | grep "@ + process
}

/// The command that switches the debug trace of instance `instance` of
/// `name` on.
pub fn enable_debug_command(name: &str, instance: &str) -> (command: String)
    ensures
        command@ == enable_debug_text(name@, instance@),
{
    let mut command = String::from_str("mgt_cscf -name=");
    command.append(name);
    command.append(" -i");
    command.append(instance);
    command.append(" -debug=3 -loglevel=0");
    command
}

/// The command that switches the debug trace of instance `instance` of
/// `name` off.
pub fn disable_debug_command(name: &str, instance: &str) -> (command: String)
    ensures
        command@ == disable_debug_text(name@, instance@),
{
    let mut command = String::from_str("mgt_cscf -name=");
    command.append(name);
    command.append(" -i");
    command.append(instance);
    command.append(" -debug=0 -loglevel=1");
    command
}

/// The command that lists the processes that every one of `greps` selects.
pub fn ps_list_command(greps: &[&str]) -> (command: String)
    ensures
        command@ == ps_list_text(str_views(greps@)),
{
    let ghost all = str_views(greps@);
    let mut command = String::from_str("ps aux ");
    let mut i: usize = 0;
    while i < greps.len()
        invariant
            i <= greps.len(),
            all == str_views(greps@),
            command@ == ps_list_text(all.take(i as int)),
        decreases greps.len() - i,
    {
        command.append("|grep ");
        command.append(greps[i]);
        command.append(" ");
        proof {
            assert(all.take(i + 1).drop_last() =~= all.take(i as int));
        }
        i += 1;
    }
    assert(all.take(greps.len() as int) =~= all);
    command
}

/// The command that prints the log of `process_name` from the first line
/// that holds `start_time`.
pub fn trace_command(process_name: &str, start_time: &str) -> (command: String)
    ensures
        command@ == trace_text(process_name@, start_time@),
{
    let mut command = String::from_str("tail -n +$(grep -m 1 -n ");
    command.append(start_time);
    command.append(" /home/log/");
    command.append(process_name);
    command.append(".1 | cut -d':' -f 1) /home/log/");
    command.append(process_name);
    command.append(".1");
    command
}

/// The command that lists the instances of `process`.
pub fn process_status_command(process: &str) -> (command: String)
    ensures
        command@ == process_status_text(process@),
{
    let mut command = String::from_str("ps aux | grep ");
    command.append(process);
    command
}

/// What a command replied, without the white space around it.
pub fn reply_text(output: &str) -> (reply: String)
    ensures
        reply@ == trimmed(output@),
{
    let text = chars_of(output);
    string_of(trim(text.as_slice()))
}

} // verus!
