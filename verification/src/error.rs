//! The failures the command core reports, and their rendered descriptions.
//!
//! Declared failures carry plain data; undeclared runtime failures are
//! carried as an `anyhow::Error`, an opaque outside value whose message
//! chain is read through a trusted wrapper.

use vstd::prelude::*;

verus! {

use crate::outside::chain_messages;
use vstd::string::StringExecFns;

/// A failure of tokenizing, resolving, or dispatching a command line.
#[derive(Debug)]
pub enum ShellError {
    /// The words after the command name did not resolve into the command's
    /// expected arguments; the payload explains what was expected.
    ArgParseError(String),
    /// A namespace was named without a subcommand; the payload lists the
    /// available subcommand names.
    MissingSubcommand(String),
    /// The word after a namespace names no subcommand in it.
    NoSuchSubcommand,
    /// Help was asked for a name that no command has.
    CommandNotFound(String),
    /// An undeclared failure from a command body, kept with its cause chain.
    Other(anyhow::Error),
}

impl ShellError {
    /// The rendered description of the failure.  For the declared kinds the
    /// text is fixed by this contract; for [`ShellError::Other`] it is the
    /// wrapped error's own message.
    pub fn describe(&self) -> (r: String)
        ensures
            match self {
                ShellError::ArgParseError(s) => r@ == "arg parse error: "@ + s@,
                ShellError::MissingSubcommand(s) => r@
                    == "Please provide a subcommand. Available subcommands: "@ + s@,
                ShellError::NoSuchSubcommand => r@
                    == "No such subcommand. ie. ./[bin] [command] [subcommand]"@,
                ShellError::CommandNotFound(s) => r@ == "Command not found: "@ + s@,
                ShellError::Other(_) => true,
            },
    {
        match self {
            ShellError::ArgParseError(s) => {
                let mut out = "arg parse error: ".to_owned();
                out.append(s.as_str());
                out
            },
            ShellError::MissingSubcommand(s) => {
                let mut out = "Please provide a subcommand. Available subcommands: ".to_owned();
                out.append(s.as_str());
                out
            },
            ShellError::NoSuchSubcommand => "No such subcommand. ie. ./[bin] [command] [subcommand]".to_owned(),
            ShellError::CommandNotFound(s) => {
                let mut out = "Command not found: ".to_owned();
                out.append(s.as_str());
                out
            },
            ShellError::Other(e) => {
                let msgs = chain_messages(e);
                msgs[0].clone()
            },
        }
    }
}

} // verus!

verus! {

use crate::exception::spec_parse_frames;
use crate::exception::ExceptionWithTrace;
use crate::exception::parse_frames_text;
use crate::outside::backtrace_text;

/// Builds the exception record for an undeclared failure from its message
/// chain and the debug text of its captured stack: the first message is
/// the headline, the rest are the sources in their original order, the
/// frames are parsed from the text, and the filter bounds are set to start
/// after the error's construction and stop at the dispatch loop.
pub fn assemble_other_trace(msgs: Vec<String>, trace_text: &str) -> (r: ExceptionWithTrace)
    requires
        msgs@.len() >= 1,
    ensures
        r.message.deep_view() == Some(msgs.deep_view()[0]),
        r.sources.deep_view() == msgs.deep_view().drop_first(),
        r.frames.deep_view() == spec_parse_frames(trace_text@),
        r.filtered_range.0.deep_view() == Some("anyhow::__private::format_err"@),
        r.filtered_range.1.deep_view() == Some("mysh::run_loop::run_once_or_loop"@),
{
    let mut sources = msgs;
    let ghost msgs_dv = sources.deep_view();
    let first = sources.remove(0);
    proof {
        assert(sources.deep_view() =~= msgs_dv.drop_first());
        assert(first@ == msgs_dv[0]);
    }
    let frames = parse_frames_text(trace_text);
    ExceptionWithTrace {
        message: Some(first),
        sources,
        frames,
        filtered_range: (
            Some("anyhow::__private::format_err".to_owned()),
            Some("mysh::run_loop::run_once_or_loop".to_owned()),
        ),
    }
}

impl ShellError {
    /// Converts the failure into a presentable exception record.  Declared
    /// kinds carry their rendered description, no sources and no frames; an
    /// undeclared failure carries its own message, its cause chain in
    /// order, and the frames captured when it was created.  Every record's
    /// filter bounds start after the error's construction and stop at the
    /// dispatch loop.
    pub fn to_trace(&self) -> (r: ExceptionWithTrace)
        ensures
            r.message is Some,
            r.filtered_range.0.deep_view() == Some("anyhow::__private::format_err"@),
            r.filtered_range.1.deep_view() == Some("mysh::run_loop::run_once_or_loop"@),
            match self {
                ShellError::ArgParseError(s) => r.message.deep_view() == Some(
                    "arg parse error: "@ + s@,
                ),
                ShellError::MissingSubcommand(s) => r.message.deep_view() == Some(
                    "Please provide a subcommand. Available subcommands: "@ + s@,
                ),
                ShellError::NoSuchSubcommand => r.message.deep_view() == Some(
                    "No such subcommand. ie. ./[bin] [command] [subcommand]"@,
                ),
                ShellError::CommandNotFound(s) => r.message.deep_view() == Some(
                    "Command not found: "@ + s@,
                ),
                ShellError::Other(_) => true,
            },
            !(self matches ShellError::Other(_)) ==> r.sources@.len() == 0 && r.frames@.len()
                == 0,
    {
        match self {
            ShellError::Other(e) => {
                let msgs = chain_messages(e);
                let text = backtrace_text(e);
                assemble_other_trace(msgs, text.as_str())
            },
            _ => {
                let message = Some(self.describe());
                ExceptionWithTrace {
                    message,
                    sources: Vec::new(),
                    frames: Vec::new(),
                    filtered_range: (
                        Some("anyhow::__private::format_err".to_owned()),
                        Some("mysh::run_loop::run_once_or_loop".to_owned()),
                    ),
                }
            },
        }
    }
}

/// The capability of turning a failure into an exception record.
pub trait ToTrace {
    /// The presentable record of this failure.
    fn to_trace(&self) -> ExceptionWithTrace;
}

impl ToTrace for ShellError {
    fn to_trace(&self) -> ExceptionWithTrace {
        ShellError::to_trace(self)
    }
}

} // verus!
