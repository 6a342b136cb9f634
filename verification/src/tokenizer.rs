//! Splits one line of input into words, honoring single and double quoting
//! and backslash escaping (a POSIX shell word-splitting subset).
//!
//! The splitting is a character-by-character state machine; its transition
//! function is stated as a specification and the executable tokenizer is
//! proved to compute exactly the specified result.


use crate::strutil;
use vstd::prelude::*;

verus! {

use vstd::string::StrSliceExecFns;

/// The input ended inside a quoted word: there is no way to recover the
/// intended word list.
#[derive(Clone, Copy, Debug, PartialEq, Eq)]
pub struct ParseError;

impl ParseError {
    /// The human-readable description of the failure.
    pub fn message(&self) -> (r: String)
        ensures
            r@ == "missing closing quote"@,
    {
        "missing closing quote".to_owned()
    }
}

/// The tokenizer's position in the input.
pub enum TokState {
    /// Between words.
    Delimiter,
    /// After a backslash, before a word has started.
    Backslash,
    /// Inside an unquoted word.
    Unquoted,
    /// After a backslash inside an unquoted word.
    UnquotedBackslash,
    /// Inside a single-quoted word.
    SingleQuoted,
    /// Inside a double-quoted word.
    DoubleQuoted,
    /// After a backslash inside a double-quoted word.
    DoubleQuotedBackslash,
}

/// A tokenizer configuration: the state, the word being built, and the words
/// already completed.
pub struct TokCfg {
    pub state: TokState,
    pub word: Seq<char>,
    pub words: Seq<Seq<char>>,
}

/// The configuration before any character has been read.
pub open spec fn tok_init() -> TokCfg {
    TokCfg { state: TokState::Delimiter, word: Seq::empty(), words: Seq::empty() }
}

/// One transition of the tokenizer on character `c`.
pub open spec fn tok_step(cfg: TokCfg, c: char) -> TokCfg {
    match cfg.state {
        TokState::Delimiter => {
            if c == '\'' {
                TokCfg { state: TokState::SingleQuoted, ..cfg }
            } else if c == '"' {
                TokCfg { state: TokState::DoubleQuoted, ..cfg }
            } else if c == '\\' {
                TokCfg { state: TokState::Backslash, ..cfg }
            } else if c == ' ' || c == '\t' || c == '\n' {
                cfg
            } else {
                TokCfg { state: TokState::Unquoted, word: cfg.word.push(c), ..cfg }
            }
        },
        TokState::Backslash => {
            if c == '\n' {
                TokCfg { state: TokState::Delimiter, ..cfg }
            } else {
                TokCfg { state: TokState::Unquoted, word: cfg.word.push(c), ..cfg }
            }
        },
        TokState::Unquoted => {
            if c == '\'' {
                TokCfg { state: TokState::SingleQuoted, ..cfg }
            } else if c == '"' {
                TokCfg { state: TokState::DoubleQuoted, ..cfg }
            } else if c == '\\' {
                TokCfg { state: TokState::UnquotedBackslash, ..cfg }
            } else if c == ' ' || c == '\t' || c == '\n' {
                TokCfg {
                    state: TokState::Delimiter,
                    word: Seq::empty(),
                    words: cfg.words.push(cfg.word),
                }
            } else {
                TokCfg { state: TokState::Unquoted, word: cfg.word.push(c), ..cfg }
            }
        },
        TokState::UnquotedBackslash => {
            if c == '\n' {
                TokCfg { state: TokState::Unquoted, ..cfg }
            } else {
                TokCfg { state: TokState::Unquoted, word: cfg.word.push(c), ..cfg }
            }
        },
        TokState::SingleQuoted => {
            if c == '\'' {
                TokCfg { state: TokState::Unquoted, ..cfg }
            } else {
                TokCfg { state: TokState::SingleQuoted, word: cfg.word.push(c), ..cfg }
            }
        },
        TokState::DoubleQuoted => {
            if c == '"' {
                TokCfg { state: TokState::Unquoted, ..cfg }
            } else if c == '\\' {
                TokCfg { state: TokState::DoubleQuotedBackslash, ..cfg }
            } else {
                TokCfg { state: TokState::DoubleQuoted, word: cfg.word.push(c), ..cfg }
            }
        },
        TokState::DoubleQuotedBackslash => {
            if c == '\n' {
                TokCfg { state: TokState::DoubleQuoted, ..cfg }
            } else if c == '$' || c == '`' || c == '"' || c == '\\' {
                TokCfg { state: TokState::DoubleQuoted, word: cfg.word.push(c), ..cfg }
            } else {
                TokCfg {
                    state: TokState::DoubleQuoted,
                    word: cfg.word.push('\\').push(c),
                    ..cfg
                }
            }
        },
    }
}

/// The configuration after reading all of `s`.
pub open spec fn tok_run(s: Seq<char>) -> TokCfg
    decreases s.len(),
{
    if s.len() == 0 {
        tok_init()
    } else {
        tok_step(tok_run(s.drop_last()), s.last())
    }
}

/// What end-of-input yields from a configuration: the completed word list,
/// or `None` when the input ended inside quotes.  A pending word is flushed;
/// a pending backslash is kept literally.
pub open spec fn tok_finish(cfg: TokCfg) -> Option<Seq<Seq<char>>> {
    match cfg.state {
        TokState::Delimiter => Some(cfg.words),
        TokState::Backslash => Some(cfg.words.push(cfg.word.push('\\'))),
        TokState::Unquoted => Some(cfg.words.push(cfg.word)),
        TokState::UnquotedBackslash => Some(cfg.words.push(cfg.word.push('\\'))),
        TokState::SingleQuoted => None,
        TokState::DoubleQuoted => None,
        TokState::DoubleQuotedBackslash => None,
    }
}

/// The word list for a whole line, or `None` on a missing closing quote.
pub open spec fn spec_tokenize(s: Seq<char>) -> Option<Seq<Seq<char>>> {
    tok_finish(tok_run(s))
}

/// The quoting context alone, independent of how words are built: outside
/// any quotes, right after an escaping backslash, inside single quotes,
/// inside double quotes, or right after a backslash inside double quotes.
pub enum QuoteCtx {
    Outside,
    Escaped,
    InSingle,
    InDouble,
    InDoubleEscaped,
}

/// One step of the quoting scanner.
pub open spec fn quote_step(q: QuoteCtx, c: char) -> QuoteCtx {
    match q {
        QuoteCtx::Outside => {
            if c == '\'' {
                QuoteCtx::InSingle
            } else if c == '"' {
                QuoteCtx::InDouble
            } else if c == '\\' {
                QuoteCtx::Escaped
            } else {
                QuoteCtx::Outside
            }
        },
        QuoteCtx::Escaped => QuoteCtx::Outside,
        QuoteCtx::InSingle => {
            if c == '\'' {
                QuoteCtx::Outside
            } else {
                QuoteCtx::InSingle
            }
        },
        QuoteCtx::InDouble => {
            if c == '"' {
                QuoteCtx::Outside
            } else if c == '\\' {
                QuoteCtx::InDoubleEscaped
            } else {
                QuoteCtx::InDouble
            }
        },
        QuoteCtx::InDoubleEscaped => QuoteCtx::InDouble,
    }
}

/// The quoting context after reading all of `s`.
pub open spec fn quote_scan(s: Seq<char>) -> QuoteCtx
    decreases s.len(),
{
    if s.len() == 0 {
        QuoteCtx::Outside
    } else {
        quote_step(quote_scan(s.drop_last()), s.last())
    }
}

/// The line's quotes are balanced: reading it does not end inside a quoted
/// word or a pending double-quote escape.
pub open spec fn quotes_balanced(s: Seq<char>) -> bool {
    match quote_scan(s) {
        QuoteCtx::InSingle => false,
        QuoteCtx::InDouble => false,
        QuoteCtx::InDoubleEscaped => false,
        _ => true,
    }
}

/// The quoting context that a tokenizer state sits in.
pub open spec fn state_ctx(st: TokState) -> QuoteCtx {
    match st {
        TokState::Delimiter => QuoteCtx::Outside,
        TokState::Backslash => QuoteCtx::Escaped,
        TokState::Unquoted => QuoteCtx::Outside,
        TokState::UnquotedBackslash => QuoteCtx::Escaped,
        TokState::SingleQuoted => QuoteCtx::InSingle,
        TokState::DoubleQuoted => QuoteCtx::InDouble,
        TokState::DoubleQuotedBackslash => QuoteCtx::InDoubleEscaped,
    }
}

/// The tokenizer's state always sits in the scanner's quoting context.
pub proof fn lemma_tokenizer_tracks_quotes(s: Seq<char>)
    ensures
        quote_scan(s) == state_ctx(tok_run(s).state),
    decreases s.len(),
{
    if s.len() > 0 {
        lemma_tokenizer_tracks_quotes(s.drop_last());
    }
}

/// Tokenization succeeds exactly on the lines whose quotes are balanced, and
/// fails with the missing-closing-quote error on all others.
pub proof fn lemma_tokenize_total_iff_balanced(s: Seq<char>)
    ensures
        spec_tokenize(s) is Some <==> quotes_balanced(s),
{
    lemma_tokenizer_tracks_quotes(s);
}

/// Splits `line` into words: whitespace separates words; single quotes keep
/// every character literal; double quotes keep characters literal except
/// backslash escapes of `$`, backquote, `"`, `\` and newline; a backslash
/// outside quotes escapes the next character; a backslash-newline is a line
/// continuation; a trailing lone backslash is kept literally.
pub fn tokenize(line: &str) -> (r: Result<Vec<String>, ParseError>)
    ensures
        match r {
            Ok(words) => spec_tokenize(line@) == Some(words.deep_view()),
            Err(_) => spec_tokenize(line@) is None,
        },
{
    let n = line.unicode_len();
    let mut st = TokState::Delimiter;
    let mut word = String::new();
    let mut words: Vec<String> = Vec::new();
    let mut i: usize = 0;
    while i < n
        invariant
            0 <= i <= n,
            n == line@.len(),
            st == tok_run(line@.take(i as int)).state,
            word@ == tok_run(line@.take(i as int)).word,
            words.deep_view() == tok_run(line@.take(i as int)).words,
        decreases n - i,
    {
        let ghost cfg = tok_run(line@.take(i as int));
        let c = line.get_char(i);
        proof {
            assert(line@.take(i + 1).drop_last() =~= line@.take(i as int));
            assert(line@.take(i + 1).last() == line@[i as int]);
        }
        match st {
            TokState::Delimiter => {
                match c {
                    '\'' => {
                        st = TokState::SingleQuoted;
                    },
                    '"' => {
                        st = TokState::DoubleQuoted;
                    },
                    '\\' => {
                        st = TokState::Backslash;
                    },
                    ' ' | '\t' | '\n' => {},
                    _ => {
                        strutil::push_char(&mut word, c);
                        st = TokState::Unquoted;
                    },
                }
            },
            TokState::Backslash => {
                match c {
                    '\n' => {
                        st = TokState::Delimiter;
                    },
                    _ => {
                        strutil::push_char(&mut word, c);
                        st = TokState::Unquoted;
                    },
                }
            },
            TokState::Unquoted => {
                match c {
                    '\'' => {
                        st = TokState::SingleQuoted;
                    },
                    '"' => {
                        st = TokState::DoubleQuoted;
                    },
                    '\\' => {
                        st = TokState::UnquotedBackslash;
                    },
                    ' ' | '\t' | '\n' => {
                        let ghost old_dv = words.deep_view();
                        words.push(word);
                        proof {
                            assert(words.deep_view() =~= old_dv.push(cfg.word));
                        }
                        word = String::new();
                        st = TokState::Delimiter;
                    },
                    _ => {
                        strutil::push_char(&mut word, c);
                    },
                }
            },
            TokState::UnquotedBackslash => {
                match c {
                    '\n' => {
                        st = TokState::Unquoted;
                    },
                    _ => {
                        strutil::push_char(&mut word, c);
                        st = TokState::Unquoted;
                    },
                }
            },
            TokState::SingleQuoted => {
                match c {
                    '\'' => {
                        st = TokState::Unquoted;
                    },
                    _ => {
                        strutil::push_char(&mut word, c);
                    },
                }
            },
            TokState::DoubleQuoted => {
                match c {
                    '"' => {
                        st = TokState::Unquoted;
                    },
                    '\\' => {
                        st = TokState::DoubleQuotedBackslash;
                    },
                    _ => {
                        strutil::push_char(&mut word, c);
                    },
                }
            },
            TokState::DoubleQuotedBackslash => {
                match c {
                    '\n' => {
                        st = TokState::DoubleQuoted;
                    },
                    '$' | '`' | '"' | '\\' => {
                        strutil::push_char(&mut word, c);
                        st = TokState::DoubleQuoted;
                    },
                    _ => {
                        strutil::push_char(&mut word, '\\');
                        strutil::push_char(&mut word, c);
                        st = TokState::DoubleQuoted;
                    },
                }
            },
        }
        i += 1;
    }
    proof {
        assert(line@.take(n as int) =~= line@);
    }
    match st {
        TokState::SingleQuoted | TokState::DoubleQuoted | TokState::DoubleQuotedBackslash => Err(
            ParseError,
        ),
        TokState::Backslash | TokState::UnquotedBackslash => {
            strutil::push_char(&mut word, '\\');
            let ghost old_dv = words.deep_view();
            words.push(word);
            proof {
                assert(words.deep_view() =~= old_dv.push(tok_run(line@).word.push('\\')));
            }
            Ok(words)
        },
        TokState::Unquoted => {
            let ghost old_dv = words.deep_view();
            words.push(word);
            proof {
                assert(words.deep_view() =~= old_dv.push(tok_run(line@).word));
            }
            Ok(words)
        },
        TokState::Delimiter => Ok(words),
    }
}

} // verus!
