//! Extraction of signalling exchanges from the debug trace of a call server.
//!
//! The heart of the crate is a scanner that reads a trace once, line by line,
//! and yields the messages that a filter selects, each with the session
//! description that followed it: [`sip_parse`] holds the scanner, [`model`]
//! says in mathematical terms what it computes, and [`laws`] proves what
//! holds of every trace. Around it stand the reading of the process list of
//! the remote host ([`process`]), the commands that are run there
//! ([`commands`]), the report on its processes ([`report`]), the decisions of
//! a session ([`session`]) and its failures ([`error`]).

pub mod classify;
pub mod commands;
pub mod error;
pub mod laws;
pub mod model;
pub mod process;
pub mod report;
pub mod session;
pub mod sip_parse;
pub mod text;
