//! What can go wrong around an extraction: reaching the remote host, running
//! a command there, and writing the result to a file.

use vstd::prelude::*;
use vstd::string::StringExecFns;

verus! {

/// A failure, with the text of its cause.
#[derive(Debug)]
pub enum Error {
    /// The remote host could not be reached.
    SshConnection(String),
    /// No session could be created.
    SshSession(String),
    /// A channel of the session failed.
    SshChannel(String),
    /// The handshake failed.
    SshHandshake(String),
    /// The remote host refused the user or the password.
    SshAuthentication(String),
    /// A command could not be run: the cause, then the command.
    Command(String, String),
    /// A file could not be opened: the cause, then the path.
    File(String, String),
    /// The result could not be written.
    Write(String),
}

pub type TraceResult<T, E = Error> = Result<T, E>;

impl Error {
    /// What the error says to the user.
    pub open spec fn message(&self) -> Seq<char> {
        match self {
            Error::SshConnection(e) => "Failed to connect to remote host: "@ + e@,
            Error::SshHandshake(e) => "Failed to perform SSH handshake: "@ + e@,
            Error::SshSession(e) => "Failed to create SSH session: "@ + e@,
            Error::SshAuthentication(e) => "Failed to perform SSH authentication: "@ + e@,
            Error::SshChannel(e) => "Error operating on SSH channel: "@ + e@,
            Error::Command(e, cmd) => "Failed to execute command: "@ + cmd@ + ". Error: "@ + e@,
            Error::File(e, path) => "Failed to open file ["@ + path@ + "]. Error: "@ + e@,
            Error::Write(e) => "Failed to write to file. Error: "@ + e@,
        }
    }

    /// What the error says to the user.
    pub fn to_string(&self) -> (text: String)
        ensures
            text@ == self.message(),
    {
        match self {
            Error::SshConnection(e) => {
                let mut text = String::from_str("Failed to connect to remote host: ");
                text.append(e.as_str());
                text
            },
            Error::SshHandshake(e) => {
                let mut text = String::from_str("Failed to perform SSH handshake: ");
                text.append(e.as_str());
                text
            },
            Error::SshSession(e) => {
                let mut text = String::from_str("Failed to create SSH session: ");
                text.append(e.as_str());
                text
            },
            Error::SshAuthentication(e) => {
                let mut text = String::from_str("Failed to perform SSH authentication: ");
                text.append(e.as_str());
                text
            },
            Error::SshChannel(e) => {
                let mut text = String::from_str("Error operating on SSH channel: ");
                text.append(e.as_str());
                text
            },
            Error::Command(e, cmd) => {
                let mut text = String::from_str("Failed to execute command: ");
                text.append(cmd.as_str());
                text.append(". Error: ");
                text.append(e.as_str());
                text
            },
            Error::File(e, path) => {
                let mut text = String::from_str("Failed to open file [");
                text.append(path.as_str());
                text.append("]. Error: ");
                text.append(e.as_str());
                text
            },
            Error::Write(e) => {
                let mut text = String::from_str("Failed to write to file. Error: ");
                text.append(e.as_str());
                text
            },
        }
    }
}

} // verus!
