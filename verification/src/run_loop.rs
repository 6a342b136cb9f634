//! The interactive loop's decision function.  The embedding program owns
//! the line reader and performs the steps; one signal at a time is turned
//! here into what the loop should do next.

use crate::error::ShellError;
use crate::strutil;
use crate::tokenizer;
use vstd::prelude::*;

verus! {

/// What the line reader reported: a line of text, the end of input, an
/// interrupt, or some other event (reported and then ignored).
#[derive(Debug, Clone, PartialEq, Eq)]
pub enum SignalEvent {
    Line(String),
    EndOfInput,
    Interrupt,
    Other,
}

/// What the interactive loop does next: read the next line, exit cleanly,
/// dispatch a word list, or report a declared failure.  Declared failures
/// are always recoverable at the loop boundary: after reporting one the
/// session continues; only end-of-input and interrupt end the loop.
#[derive(Debug)]
pub enum LoopStep {
    /// Nothing to do for this signal; read the next line.
    Skip,
    /// The reader signalled termination; leave the loop cleanly.
    Exit,
    /// Dispatch this word list, then read the next line.
    Run(Vec<String>),
    /// Report this failure to the user, then read the next line.
    Report(ShellError),
}

/// Decides one iteration of the interactive loop.  An empty line, a line
/// of nothing but whitespace, and any event besides a line or a
/// termination signal are skipped; end-of-input and interrupt exit the
/// loop cleanly; a line whose quotes are unbalanced has the
/// missing-closing-quote failure reported, and the session continues; any
/// other line runs its word list.
pub fn interactive_step(ev: SignalEvent) -> (r: LoopStep)
    ensures
        match ev {
            SignalEvent::Line(s) => {
                if s@.len() == 0 {
                    r is Skip
                } else {
                    match tokenizer::spec_tokenize(s@) {
                        None => r matches LoopStep::Report(e) && (e matches
                            ShellError::ArgParseError(m) && m@ == "missing closing quote"@),
                        Some(words) => if words.len() == 0 {
                            r is Skip
                        } else {
                            r matches LoopStep::Run(argv) && argv.deep_view() == words
                        },
                    }
                }
            },
            SignalEvent::EndOfInput => r is Exit,
            SignalEvent::Interrupt => r is Exit,
            SignalEvent::Other => r is Skip,
        },
{
    match ev {
        SignalEvent::Line(line) => {
            if line.as_str().unicode_len() == 0 {
                return LoopStep::Skip;
            }
            match tokenizer::tokenize(line.as_str()) {
                Err(e) => LoopStep::Report(ShellError::ArgParseError(e.message())),
                Ok(argv) => {
                    proof {
                        assert(argv.deep_view().len() == argv@.len());
                    }
                    if argv.len() == 0 {
                        LoopStep::Skip
                    } else {
                        LoopStep::Run(argv)
                    }
                },
            }
        },
        SignalEvent::EndOfInput => LoopStep::Exit,
        SignalEvent::Interrupt => LoopStep::Exit,
        SignalEvent::Other => LoopStep::Skip,
    }
}

} // verus!
