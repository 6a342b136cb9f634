//! Building blocks for interactive, multi-command shells: a POSIX-style line
//! tokenizer, a typed argument resolver, a command registry with nested
//! namespaces, a dispatch state machine, and a diagnostic pipeline that turns
//! errors into filtered, presentable exception traces.
//!
//! The library computes decisions and renders text; reading lines, printing,
//! and running command bodies are left to the embedding program.

pub mod command_arg;
pub mod command_list;
pub mod error;
pub mod exception;
pub mod intlit;
pub mod outside;
pub mod run_loop;
pub mod shell;
pub mod strutil;
pub mod tokenizer;

pub use command_arg::ArgDoc;
pub use command_arg::CommandArg;
pub use command_arg::parse_arguments;
pub use command_arg::resolve;
pub use command_arg::Scalar;
pub use command_list::CommandEntry;
pub use command_list::CommandList;
pub use error::ShellError;
pub use error::ToTrace;
pub use exception::ExceptionWithTrace;
pub use exception::FrameSymbol;
pub use run_loop::LoopStep;
pub use run_loop::SignalEvent;
pub use shell::Action;
pub use shell::PromptText;
pub use shell::Scripts;
pub use shell::Shell;
pub use tokenizer::ParseError;
pub use tokenizer::tokenize;

use vstd::prelude::*;

verus! {

/// Recognizes an affirmative confirmation reply: the input, with surrounding
/// whitespace removed and ASCII letters lowered, equals "y" or "yes".
pub open spec fn spec_is_affirmative(s: Seq<char>) -> bool {
    let t = strutil::spec_trim(s).map_values(|c: char| strutil::ascii_lower(c));
    t == "y"@ || t == "yes"@
}

/// Decides whether a confirmation reply entered by the user means "yes".
pub fn is_affirmative(input: &str) -> (r: bool)
    ensures
        r == spec_is_affirmative(input@),
{
    let t = strutil::trim(input);
    let lowered = strutil::ascii_lowercase(t.as_str());
    proof {
        reveal_strlit("y");
        reveal_strlit("yes");
    }
    strutil::str_eq(lowered.as_str(), "y") || strutil::str_eq(lowered.as_str(), "yes")
}

} // verus!
