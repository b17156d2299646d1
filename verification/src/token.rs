//! Tokens produced by the lexer: words and redirection/pipe operators.
use vstd::prelude::*;

verus! {

/// An operator token. The optional fd distinguishes the bare `>`/`>>`
/// forms (implicit fd 1) from the explicit `1>`/`2>`/`1>>`/`2>>` forms;
/// `<` always addresses fd 0.
#[derive(Debug, Clone, Copy, PartialEq, Eq)]
pub enum Operator {
    Pipe,
    Output(Option<u8>),
    Append(Option<u8>),
    Input,
}

/// A lexed token: a word (quoting and escapes already resolved, owning
/// its text) or an operator.
#[derive(Debug, PartialEq, Eq)]
pub enum Token {
    Word(String),
    Operator(Operator),
}

impl Clone for Token {
    /// Cloning a token preserves its value.
    fn clone(&self) -> (res: Self)
        ensures
            res == *self,
    {
        match self {
            Token::Word(s) => Token::Word(s.clone()),
            Token::Operator(op) => Token::Operator(*op),
        }
    }
}

/// The mathematical model of a token: the word's characters, or the
/// operator itself.
pub enum SpecToken {
    Word(Seq<char>),
    Op(Operator),
}

impl View for Token {
    type V = SpecToken;

    open spec fn view(&self) -> SpecToken {
        match self {
            Token::Word(s) => SpecToken::Word(s@),
            Token::Operator(op) => SpecToken::Op(*op),
        }
    }
}

/// The models of a sequence of tokens.
pub open spec fn toks_view(ts: Seq<Token>) -> Seq<SpecToken> {
    ts.map_values(|t: Token| t@)
}

/// The operator, if any, that a piece of token text spells: one of
/// `|`, `>`, `>>`, `1>`, `2>`, `1>>`, `2>>`, `<`.
pub open spec fn spec_operator_of(s: Seq<char>) -> Option<Operator> {
    if s =~= seq!['|'] {
        Some(Operator::Pipe)
    } else if s =~= seq!['>'] {
        Some(Operator::Output(None))
    } else if s =~= seq!['1', '>'] {
        Some(Operator::Output(Some(1u8)))
    } else if s =~= seq!['2', '>'] {
        Some(Operator::Output(Some(2u8)))
    } else if s =~= seq!['>', '>'] {
        Some(Operator::Append(None))
    } else if s =~= seq!['1', '>', '>'] {
        Some(Operator::Append(Some(1u8)))
    } else if s =~= seq!['2', '>', '>'] {
        Some(Operator::Append(Some(2u8)))
    } else if s =~= seq!['<'] {
        Some(Operator::Input)
    } else {
        None
    }
}

/// Classifies flushed token text: returns the operator it spells, or
/// `None` when it is ordinary word text.
pub fn operator_of(v: &Vec<char>) -> (r: Option<Operator>)
    ensures
        r == spec_operator_of(v@),
{
    let n = v.len();
    if n == 1 {
        let c = v[0];
        if c == '|' {
            Some(Operator::Pipe)
        } else if c == '>' {
            Some(Operator::Output(None))
        } else if c == '<' {
            Some(Operator::Input)
        } else {
            None
        }
    } else if n == 2 {
        let c0 = v[0];
        let c1 = v[1];
        if c0 == '1' && c1 == '>' {
            Some(Operator::Output(Some(1)))
        } else if c0 == '2' && c1 == '>' {
            Some(Operator::Output(Some(2)))
        } else if c0 == '>' && c1 == '>' {
            Some(Operator::Append(None))
        } else {
            None
        }
    } else if n == 3 {
        let c0 = v[0];
        let c1 = v[1];
        let c2 = v[2];
        if c0 == '1' && c1 == '>' && c2 == '>' {
            Some(Operator::Append(Some(1)))
        } else if c0 == '2' && c1 == '>' && c2 == '>' {
            Some(Operator::Append(Some(2)))
        } else {
            None
        }
    } else {
        None
    }
}

} // verus!
