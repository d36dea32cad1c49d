//! Splitting a command line into words, honouring single quotes, double
//! quotes and backslash escapes.
//!
//! The tokenizer is a state machine over one active [`Scope`] and one
//! accumulator. Its meaning is given by the spec function [`step`], one
//! transition per character, and [`tokenize`], which runs the machine over a
//! whole line and resolves the scope left at the end.

use vstd::prelude::*;
use vstd::string::StringExecFns;
use crate::text::{push_char, texts};

verus! {

/// The character that follows a backslash is read in one of two contexts.
#[derive(Clone, Copy, Debug, PartialEq, Eq, Structural)]
pub enum EscapeContext {
    /// A backslash inside double quotes: special only before `"` and `\`.
    InsideDoubleQuotes,
    /// A backslash outside quotes: escapes any character.
    Outside,
}

/// The quoting or escaping context the tokenizer is in.
#[derive(Clone, Copy, Debug, PartialEq, Eq, Structural)]
pub enum Scope {
    Unquoted,
    SingleQuoted,
    DoubleQuoted,
    PendingEscape(EscapeContext),
}

/// Why a line could not be split into words.
#[derive(Clone, Copy, Debug, PartialEq, Eq, Structural)]
pub enum TokenizeError {
    DanglingSingleQuote,
    DanglingDoubleQuote,
    DanglingDoubleQuoteBeforeBackslash,
    UnsupportedTrailingBackslash,
}

impl TokenizeError {
    /// The line that reports the error.
    pub open spec fn text(&self) -> Seq<char> {
        match self {
            TokenizeError::DanglingSingleQuote => "Input contains dangling single quote"@,
            TokenizeError::DanglingDoubleQuote => "Input contains dangling double quote"@,
            TokenizeError::DanglingDoubleQuoteBeforeBackslash =>
                "Input contains dangling double quote before backslash"@,
            TokenizeError::UnsupportedTrailingBackslash =>
                "Unsupported input: backslash at line end"@,
        }
    }

    /// The line that reports the error.
    pub fn message(&self) -> (r: String)
        ensures
            r@ == self.text(),
    {
        match self {
            TokenizeError::DanglingSingleQuote => String::from_str(
                "Input contains dangling single quote",
            ),
            TokenizeError::DanglingDoubleQuote => String::from_str(
                "Input contains dangling double quote",
            ),
            TokenizeError::DanglingDoubleQuoteBeforeBackslash => String::from_str(
                "Input contains dangling double quote before backslash",
            ),
            TokenizeError::UnsupportedTrailingBackslash => String::from_str(
                "Unsupported input: backslash at line end",
            ),
        }
    }
}

/// Abstract state of the tokenizer: the scope, the words emitted so far and
/// the characters accumulated for the word in progress.
pub struct LexState {
    pub scope: Scope,
    pub words: Seq<Seq<char>>,
    pub current: Seq<char>,
}

/// Names `char::is_whitespace`: whether a character has the Unicode
/// White_Space property.
pub uninterp spec fn white_space(c: char) -> bool;

/// Relies on `char::is_whitespace`, which depends on the character alone.
#[verifier::external_body]
fn is_whitespace(c: char) -> (r: bool)
    ensures
        r == white_space(c),
{
    c.is_whitespace()
}

pub open spec fn initial_state() -> LexState {
    LexState { scope: Scope::Unquoted, words: Seq::empty(), current: Seq::empty() }
}

/// The word in progress, if any, moved to the emitted words.
pub open spec fn flush(words: Seq<Seq<char>>, current: Seq<char>) -> Seq<Seq<char>> {
    if current.len() == 0 {
        words
    } else {
        words.push(current)
    }
}

/// One transition of the tokenizer on character `c`; `white` tells whether
/// `c` is whitespace. Outside quotes the delimiters `\`, `'` and `"` are
/// tested first; none of them is whitespace, so the order changes nothing.
pub open spec fn step(st: LexState, c: char, white: bool) -> LexState {
    match st.scope {
        Scope::Unquoted => {
            if c == '\\' {
                LexState { scope: Scope::PendingEscape(EscapeContext::Outside), ..st }
            } else if c == '\'' {
                LexState { scope: Scope::SingleQuoted, ..st }
            } else if c == '"' {
                LexState { scope: Scope::DoubleQuoted, ..st }
            } else if white {
                LexState { words: flush(st.words, st.current), current: Seq::empty(), ..st }
            } else {
                LexState { current: st.current.push(c), ..st }
            }
        },
        Scope::SingleQuoted => {
            if c == '\'' {
                LexState { scope: Scope::Unquoted, ..st }
            } else {
                LexState { current: st.current.push(c), ..st }
            }
        },
        Scope::DoubleQuoted => {
            if c == '"' {
                LexState { scope: Scope::Unquoted, ..st }
            } else if c == '\\' {
                LexState { scope: Scope::PendingEscape(EscapeContext::InsideDoubleQuotes), ..st }
            } else {
                LexState { current: st.current.push(c), ..st }
            }
        },
        Scope::PendingEscape(EscapeContext::InsideDoubleQuotes) => {
            if c == '"' || c == '\\' {
                LexState { scope: Scope::DoubleQuoted, current: st.current.push(c), ..st }
            } else {
                LexState {
                    scope: Scope::DoubleQuoted,
                    current: st.current.push('\\').push(c),
                    ..st
                }
            }
        },
        Scope::PendingEscape(EscapeContext::Outside) => {
            LexState { scope: Scope::Unquoted, current: st.current.push(c), ..st }
        },
    }
}

/// The state reached from `st` after reading every character of `s`.
pub open spec fn run(st: LexState, s: Seq<char>) -> LexState
    decreases s.len(),
{
    if s.len() == 0 {
        st
    } else {
        let c = s.last();
        step(run(st, s.drop_last()), c, white_space(c))
    }
}

/// How the end of the input resolves the state left by the last character.
pub open spec fn finish(st: LexState) -> Result<Seq<Seq<char>>, TokenizeError> {
    match st.scope {
        Scope::Unquoted => Ok(flush(st.words, st.current)),
        Scope::SingleQuoted => Err(TokenizeError::DanglingSingleQuote),
        Scope::DoubleQuoted => Err(TokenizeError::DanglingDoubleQuote),
        Scope::PendingEscape(EscapeContext::InsideDoubleQuotes) => Err(
            TokenizeError::DanglingDoubleQuoteBeforeBackslash,
        ),
        Scope::PendingEscape(EscapeContext::Outside) => Err(
            TokenizeError::UnsupportedTrailingBackslash,
        ),
    }
}

/// The words of a line, or why it has none.
pub open spec fn tokenize(s: Seq<char>) -> Result<Seq<Seq<char>>, TokenizeError> {
    finish(run(initial_state(), s))
}

/// Executable tokenizer state.
pub struct Lexer {
    scope: Scope,
    words: Vec<String>,
    current: String,
}

impl View for Lexer {
    type V = LexState;

    closed spec fn view(&self) -> LexState {
        LexState { scope: self.scope, words: texts(self.words@), current: self.current@ }
    }
}

impl Lexer {
    pub fn new() -> (r: Lexer)
        ensures
            r@ == initial_state(),
    {
        let r = Lexer { scope: Scope::Unquoted, words: Vec::new(), current: String::new() };
        assert(r@.words =~= Seq::<Seq<char>>::empty());
        r
    }

    fn flush(&mut self)
        ensures
            final(self)@ == (LexState {
                words: flush(old(self)@.words, old(self)@.current),
                current: Seq::empty(),
                ..old(self)@
            }),
    {
        if !self.current.as_str().is_empty() {
            self.words.push(self.current.clone());
            assert(texts(self.words@) =~= texts(old(self).words@).push(old(self).current@));
        }
        self.current = String::new();
    }

    /// Feeds one character; `white` tells whether it is whitespace.
    pub fn advance(&mut self, c: char, white: bool)
        ensures
            final(self)@ == step(old(self)@, c, white),
    {
        match self.scope {
            Scope::Unquoted => {
                if c == '\\' {
                    self.scope = Scope::PendingEscape(EscapeContext::Outside);
                } else if c == '\'' {
                    self.scope = Scope::SingleQuoted;
                } else if c == '"' {
                    self.scope = Scope::DoubleQuoted;
                } else if white {
                    self.flush();
                } else {
                    push_char(&mut self.current, c);
                }
            },
            Scope::SingleQuoted => {
                if c == '\'' {
                    self.scope = Scope::Unquoted;
                } else {
                    push_char(&mut self.current, c);
                }
            },
            Scope::DoubleQuoted => {
                if c == '"' {
                    self.scope = Scope::Unquoted;
                } else if c == '\\' {
                    self.scope = Scope::PendingEscape(EscapeContext::InsideDoubleQuotes);
                } else {
                    push_char(&mut self.current, c);
                }
            },
            Scope::PendingEscape(EscapeContext::InsideDoubleQuotes) => {
                if c != '"' && c != '\\' {
                    push_char(&mut self.current, '\\');
                }
                push_char(&mut self.current, c);
                self.scope = Scope::DoubleQuoted;
            },
            Scope::PendingEscape(EscapeContext::Outside) => {
                push_char(&mut self.current, c);
                self.scope = Scope::Unquoted;
            },
        }
    }

    /// Ends the input: the words read, or why the line is incomplete.
    pub fn finish(self) -> (r: Result<Vec<String>, TokenizeError>)
        ensures
            match finish(self@) {
                Ok(ws) => r is Ok && texts(r->Ok_0@) == ws,
                Err(e) => r == Err::<Vec<String>, TokenizeError>(e),
            },
    {
        let mut lexer = self;
        match lexer.scope {
            Scope::Unquoted => {
                lexer.flush();
                Ok(lexer.words)
            },
            Scope::SingleQuoted => Err(TokenizeError::DanglingSingleQuote),
            Scope::DoubleQuoted => Err(TokenizeError::DanglingDoubleQuote),
            Scope::PendingEscape(EscapeContext::InsideDoubleQuotes) => Err(
                TokenizeError::DanglingDoubleQuoteBeforeBackslash,
            ),
            Scope::PendingEscape(EscapeContext::Outside) => Err(
                TokenizeError::UnsupportedTrailingBackslash,
            ),
        }
    }
}

/// Splits a line into words: the words that [`tokenize`] gives, or its
/// error.
pub fn parser(input: &str) -> (r: Result<Vec<String>, TokenizeError>)
    ensures
        match tokenize(input@) {
            Ok(ws) => r is Ok && texts(r->Ok_0@) == ws,
            Err(e) => r == Err::<Vec<String>, TokenizeError>(e),
        },
{
    let mut lexer = Lexer::new();
    for c in it: input.chars()
        invariant
            it.seq() == input@,
            lexer@ == run(initial_state(), input@.take(it.index() as int)),
    {
        proof {
            let k = it.index() as int;
            assert(input@.take(k + 1).drop_last() =~= input@.take(k));
        }
        let white = is_whitespace(c);
        lexer.advance(c, white);
    }
    proof {
        assert(input@.take(input@.len() as int) =~= input@);
    }
    lexer.finish()
}

} // verus!
