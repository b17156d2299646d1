//! The lexer: a raw input line becomes an ordered token stream, with
//! shell-style quoting and escape rules. Lexing never fails: malformed
//! quoting degrades to best-effort word tokens.
use vstd::prelude::*;

use crate::strutil::{all_digits, chars_to_string, spec_all_digits, str_to_chars};
use crate::token::{operator_of, spec_operator_of, toks_view, SpecToken, Token};

verus! {

/// The lexer's quoting state.
#[derive(Debug, Clone, Copy)]
pub enum LexerState {
    Normal,
    InSingleQuote,
    InDoubleQuote,
}

/// A character the lexer treats as a word boundary in the `Normal`
/// state: the ASCII whitespace characters.
pub open spec fn is_space_char(c: char) -> bool {
    c == ' ' || c == '\t' || c == '\n' || c == '\r' || c == '\u{c}'
}

/// Executable test for [`is_space_char`].
pub fn is_space(c: char) -> (r: bool)
    ensures
        r == is_space_char(c),
{
    c == ' ' || c == '\t' || c == '\n' || c == '\r' || c == '\u{c}'
}

/// How flushed token text is classified: while in `Normal` state, text
/// that spells a known operator becomes that operator; any other text,
/// and all text flushed from inside a quote, becomes a word.
pub open spec fn spec_classify(st: LexerState, cur: Seq<char>) -> SpecToken {
    match st {
        LexerState::Normal => match spec_operator_of(cur) {
            Some(op) => SpecToken::Op(op),
            None => SpecToken::Word(cur),
        },
        _ => SpecToken::Word(cur),
    }
}

/// Flushing pending token text: empty text emits nothing; non-empty
/// text is classified and appended to the output.
pub open spec fn spec_flush(st: LexerState, cur: Seq<char>, out: Seq<SpecToken>) -> Seq<
    SpecToken,
> {
    if cur.len() == 0 {
        out
    } else {
        out.push(spec_classify(st, cur))
    }
}

/// One configuration of the lexer run to completion: reading `input`
/// from position `pos` in state `st`, with pending token text `cur` and
/// already-emitted tokens `out`. This is the reference semantics of
/// lexing:
/// - whitespace in `Normal` flushes the pending token;
/// - `|` and `<` flush the pending token and emit themselves;
/// - `>` merges with an all-digit pending token into an fd-prefixed
///   operator, doubles to `>>` when another `>` follows, and otherwise
///   starts a fresh operator after a normal flush;
/// - quotes switch state without being appended;
/// - in `Normal`, a backslash appends the next character literally; in
///   double quotes it does so only before `"` or `\`; single-quoted
///   text is wholly literal;
/// - end of input flushes any pending text in the state active then.
pub open spec fn spec_lex_at(
    input: Seq<char>,
    pos: int,
    st: LexerState,
    cur: Seq<char>,
    out: Seq<SpecToken>,
) -> Seq<SpecToken>
    decreases input.len() - pos,
{
    if pos < 0 || pos >= input.len() {
        spec_flush(st, cur, out)
    } else {
        let c = input[pos];
        match st {
            LexerState::Normal => {
                if is_space_char(c) {
                    spec_lex_at(input, pos + 1, st, Seq::empty(), spec_flush(st, cur, out))
                } else if c == '|' {
                    spec_lex_at(
                        input,
                        pos + 1,
                        st,
                        Seq::empty(),
                        spec_flush(st, seq!['|'], spec_flush(st, cur, out)),
                    )
                } else if c == '>' {
                    if cur.len() > 0 && spec_all_digits(cur) {
                        if pos + 1 < input.len() && input[pos + 1] == '>' {
                            spec_lex_at(
                                input,
                                pos + 2,
                                st,
                                Seq::empty(),
                                spec_flush(st, cur.push('>').push('>'), out),
                            )
                        } else {
                            spec_lex_at(
                                input,
                                pos + 1,
                                st,
                                Seq::empty(),
                                spec_flush(st, cur.push('>'), out),
                            )
                        }
                    } else {
                        if pos + 1 < input.len() && input[pos + 1] == '>' {
                            spec_lex_at(
                                input,
                                pos + 2,
                                st,
                                Seq::empty(),
                                spec_flush(st, seq!['>', '>'], spec_flush(st, cur, out)),
                            )
                        } else {
                            spec_lex_at(
                                input,
                                pos + 1,
                                st,
                                Seq::empty(),
                                spec_flush(st, seq!['>'], spec_flush(st, cur, out)),
                            )
                        }
                    }
                } else if c == '<' {
                    spec_lex_at(
                        input,
                        pos + 1,
                        st,
                        Seq::empty(),
                        spec_flush(st, seq!['<'], spec_flush(st, cur, out)),
                    )
                } else if c == '\'' {
                    spec_lex_at(input, pos + 1, LexerState::InSingleQuote, cur, out)
                } else if c == '"' {
                    spec_lex_at(input, pos + 1, LexerState::InDoubleQuote, cur, out)
                } else if c == '\\' {
                    if pos + 1 < input.len() {
                        spec_lex_at(input, pos + 2, st, cur.push(input[pos + 1]), out)
                    } else {
                        spec_lex_at(input, pos + 1, st, cur.push('\\'), out)
                    }
                } else {
                    spec_lex_at(input, pos + 1, st, cur.push(c), out)
                }
            },
            LexerState::InSingleQuote => {
                if c == '\'' {
                    spec_lex_at(input, pos + 1, LexerState::Normal, cur, out)
                } else {
                    spec_lex_at(input, pos + 1, st, cur.push(c), out)
                }
            },
            LexerState::InDoubleQuote => {
                if c == '"' {
                    spec_lex_at(input, pos + 1, LexerState::Normal, cur, out)
                } else if c == '\\' && pos + 1 < input.len() && (input[pos + 1] == '"' || input[
                    pos + 1
                ] == '\\') {
                    spec_lex_at(input, pos + 2, st, cur.push(input[pos + 1]), out)
                } else {
                    spec_lex_at(input, pos + 1, st, cur.push(c), out)
                }
            },
        }
    }
}

/// The token sequence that lexing a whole line yields.
pub open spec fn spec_lex(input: Seq<char>) -> Seq<SpecToken> {
    spec_lex_at(input, 0, LexerState::Normal, Seq::empty(), Seq::empty())
}

/// Lexing is deterministic: any two token sequences lexed from the same
/// line are equal.
pub proof fn lemma_lex_deterministic(line: Seq<char>, t1: Seq<SpecToken>, t2: Seq<SpecToken>)
    requires
        t1 == spec_lex(line),
        t2 == spec_lex(line),
    ensures
        t1 == t2,
{
}

/// The stateful tokenizer. Its state is reset per input line: build one
/// with [`Lexer::new`] and consume it with [`Lexer::lex`].
pub struct Lexer {
    input: Vec<char>,
    position: usize,
    current_state: LexerState,
    current_token: Vec<char>,
    tokens: Vec<Token>,
}

impl Lexer {
    /// The characters of the line this lexer was built over.
    pub closed spec fn input_chars(self) -> Seq<char> {
        self.input@
    }

    /// A lexer that has not consumed anything yet.
    pub closed spec fn fresh(self) -> bool {
        &&& self.position == 0
        &&& self.current_state is Normal
        &&& self.current_token@ == Seq::<char>::empty()
        &&& self.tokens@ == Seq::<Token>::empty()
    }

    /// A fresh lexer over the given line.
    pub fn new(input: &str) -> (r: Self)
        ensures
            r.input_chars() == input@,
            r.fresh(),
    {
        Self {
            input: str_to_chars(input),
            position: 0,
            current_state: LexerState::Normal,
            current_token: Vec::new(),
            tokens: Vec::new(),
        }
    }

    /// Runs the lexer over its whole line and hands out the tokens:
    /// exactly the sequence [`spec_lex`] describes. Never fails.
    pub fn lex(&mut self) -> (tokens: Vec<Token>)
        requires
            old(self).fresh(),
        ensures
            toks_view(tokens@) == spec_lex(old(self).input_chars()),
    {
        proof {
            assert(toks_view(self.tokens@) =~= Seq::<SpecToken>::empty());
        }
        while self.position < self.input.len()
            invariant
                self.input@ == old(self).input@,
                self.position <= self.input@.len(),
                spec_lex(old(self).input_chars()) == spec_lex_at(
                    self.input@,
                    self.position as int,
                    self.current_state,
                    self.current_token@,
                    toks_view(self.tokens@),
                ),
            decreases self.input@.len() - self.position,
        {
            self.handle_char();
        }
        self.emit_token();
        let mut out: Vec<Token> = Vec::new();
        core::mem::swap(&mut out, &mut self.tokens);
        out
    }

    /// Consumes the character at the current position (and, for two-
    /// character operators and escapes, the one after it), preserving
    /// the meaning of the remaining run.
    fn handle_char(&mut self)
        requires
            old(self).position < old(self).input@.len(),
        ensures
            final(self).input@ == old(self).input@,
            old(self).position < final(self).position <= old(self).input@.len(),
            spec_lex_at(
                final(self).input@,
                final(self).position as int,
                final(self).current_state,
                final(self).current_token@,
                toks_view(final(self).tokens@),
            ) == spec_lex_at(
                old(self).input@,
                old(self).position as int,
                old(self).current_state,
                old(self).current_token@,
                toks_view(old(self).tokens@),
            ),
    {
        match self.current_state {
            LexerState::Normal => self.handle_normal_char(),
            LexerState::InSingleQuote => self.handle_single_quote_char(),
            LexerState::InDoubleQuote => self.handle_double_quote_char(),
        }
    }

    /// One step of the `Normal` state: word boundaries, operator
    /// starts, fd prefixes, quote entry and unquoted escapes.
    fn handle_normal_char(&mut self)
        requires
            old(self).position < old(self).input@.len(),
            old(self).current_state is Normal,
        ensures
            final(self).input@ == old(self).input@,
            old(self).position < final(self).position <= old(self).input@.len(),
            spec_lex_at(
                final(self).input@,
                final(self).position as int,
                final(self).current_state,
                final(self).current_token@,
                toks_view(final(self).tokens@),
            ) == spec_lex_at(
                old(self).input@,
                old(self).position as int,
                old(self).current_state,
                old(self).current_token@,
                toks_view(old(self).tokens@),
            ),
    {
        let n = self.input.len();
        let pos = self.position;
        let c = self.input[pos];
        if is_space(c) {
            self.emit_token();
            self.position = pos + 1;
        } else if c == '|' {
            self.emit_token();
            self.current_token.push('|');
            self.emit_token();
            self.position = pos + 1;
        } else if c == '>' {
            let fd_prefix = self.current_token.len() > 0 && all_digits(&self.current_token);
            if !fd_prefix {
                self.emit_token();
            }
            self.current_token.push('>');
            if pos + 1 < n && self.input[pos + 1] == '>' {
                self.current_token.push('>');
                self.emit_token();
                self.position = pos + 2;
            } else {
                self.emit_token();
                self.position = pos + 1;
            }
        } else if c == '<' {
            self.emit_token();
            self.current_token.push('<');
            self.emit_token();
            self.position = pos + 1;
        } else if c == '\'' {
            self.current_state = LexerState::InSingleQuote;
            self.position = pos + 1;
        } else if c == '"' {
            self.current_state = LexerState::InDoubleQuote;
            self.position = pos + 1;
        } else if c == '\\' {
            if pos + 1 < n {
                let next = self.input[pos + 1];
                self.current_token.push(next);
                self.position = pos + 2;
            } else {
                self.current_token.push('\\');
                self.position = pos + 1;
            }
        } else {
            self.current_token.push(c);
            self.position = pos + 1;
        }
    }

    /// One step of the `InSingleQuote` state: every character is
    /// literal until the closing quote.
    fn handle_single_quote_char(&mut self)
        requires
            old(self).position < old(self).input@.len(),
            old(self).current_state is InSingleQuote,
        ensures
            final(self).input@ == old(self).input@,
            old(self).position < final(self).position <= old(self).input@.len(),
            spec_lex_at(
                final(self).input@,
                final(self).position as int,
                final(self).current_state,
                final(self).current_token@,
                toks_view(final(self).tokens@),
            ) == spec_lex_at(
                old(self).input@,
                old(self).position as int,
                old(self).current_state,
                old(self).current_token@,
                toks_view(old(self).tokens@),
            ),
    {
        let n = self.input.len();
        let pos = self.position;
        let c = self.input[pos];
        proof {
            assert(pos < n);
        }
        if c == '\'' {
            self.current_state = LexerState::Normal;
        } else {
            self.current_token.push(c);
        }
        self.position = pos + 1;
    }

    /// One step of the `InDoubleQuote` state: backslash escapes only
    /// `"` and `\`; anything else is literal until the closing quote.
    fn handle_double_quote_char(&mut self)
        requires
            old(self).position < old(self).input@.len(),
            old(self).current_state is InDoubleQuote,
        ensures
            final(self).input@ == old(self).input@,
            old(self).position < final(self).position <= old(self).input@.len(),
            spec_lex_at(
                final(self).input@,
                final(self).position as int,
                final(self).current_state,
                final(self).current_token@,
                toks_view(final(self).tokens@),
            ) == spec_lex_at(
                old(self).input@,
                old(self).position as int,
                old(self).current_state,
                old(self).current_token@,
                toks_view(old(self).tokens@),
            ),
    {
        let n = self.input.len();
        let pos = self.position;
        let c = self.input[pos];
        if c == '"' {
            self.current_state = LexerState::Normal;
            self.position = pos + 1;
        } else if c == '\\' && pos + 1 < n && {
            let next = self.input[pos + 1];
            next == '"' || next == '\\'
        } {
            let next = self.input[pos + 1];
            self.current_token.push(next);
            self.position = pos + 2;
        } else {
            self.current_token.push(c);
            self.position = pos + 1;
        }
    }

    /// Flushes the pending token text, classifying it in the current
    /// state; empty pending text emits nothing.
    fn emit_token(&mut self)
        ensures
            final(self).input@ == old(self).input@,
            final(self).position == old(self).position,
            final(self).current_state == old(self).current_state,
            final(self).current_token@ == Seq::<char>::empty(),
            toks_view(final(self).tokens@) == spec_flush(
                old(self).current_state,
                old(self).current_token@,
                toks_view(old(self).tokens@),
            ),
    {
        if self.current_token.len() == 0 {
            return ;
        }
        let tok = match self.current_state {
            LexerState::Normal => match operator_of(&self.current_token) {
                Some(op) => Token::Operator(op),
                None => Token::Word(chars_to_string(&self.current_token)),
            },
            LexerState::InSingleQuote | LexerState::InDoubleQuote => Token::Word(
                chars_to_string(&self.current_token),
            ),
        };
        proof {
            assert(tok@ == spec_classify(self.current_state, self.current_token@));
        }
        self.tokens.push(tok);
        self.current_token = Vec::new();
        proof {
            assert(toks_view(self.tokens@) =~= spec_flush(
                old(self).current_state,
                old(self).current_token@,
                toks_view(old(self).tokens@),
            ));
        }
    }
}

} // verus!
