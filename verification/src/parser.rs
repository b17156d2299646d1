//! The parser: a token stream becomes an abstract syntax tree — a
//! single command, or a pipeline of at least two commands, each with
//! its ordered redirections. A malformed stream yields an error that
//! is fatal to the current line only.
use vstd::prelude::*;

use crate::strutil::strs_view;
use crate::token::{toks_view, Operator, SpecToken, Token};

verus! {

/// The direction of a redirection.
#[derive(Debug, Clone, Copy, PartialEq, Eq, Structural)]
pub enum RedirectionType {
    Input,
    Output,
    Append,
}

/// A redirection clause attached to one command: rebind `fd` to the
/// file named `target`, truncating, appending or reading.
#[derive(Debug, Clone, PartialEq, Eq)]
pub struct Redirection {
    pub fd: u8,
    pub direction: RedirectionType,
    pub target: String,
}

/// The model of a redirection: the target as its characters.
pub struct SpecRedirection {
    pub fd: u8,
    pub direction: RedirectionType,
    pub target: Seq<char>,
}

impl View for Redirection {
    type V = SpecRedirection;

    open spec fn view(&self) -> SpecRedirection {
        SpecRedirection { fd: self.fd, direction: self.direction, target: self.target@ }
    }
}

/// The model of one command: its name, positional arguments in order,
/// and redirections in occurrence order.
pub struct SpecCommand {
    pub name: Seq<char>,
    pub args: Seq<Seq<char>>,
    pub redirections: Seq<SpecRedirection>,
}

/// The model of a parsed line: one command, or the commands of a
/// pipeline in stage order.
pub enum SpecAst {
    Command(SpecCommand),
    Pipeline(Seq<SpecCommand>),
}

/// A parse tree: either a single command or a pipeline of commands.
/// A well-formed tree never holds a pipeline of fewer than two stages
/// (see [`ASTNode::wf`]).
#[derive(Debug, PartialEq, Eq)]
pub enum ASTNode {
    Command { name: String, args: Vec<String>, redirections: Vec<Redirection> },
    Pipeline(Vec<ASTNode>),
}

/// The models of a sequence of redirections.
pub open spec fn redirs_view(rs: Seq<Redirection>) -> Seq<SpecRedirection> {
    rs.map_values(|r: Redirection| r@)
}

/// The command model of a `Command` node (pipelines hold only such
/// nodes; the value is unspecified on a nested pipeline).
pub open spec fn cmd_view(n: ASTNode) -> SpecCommand {
    match n {
        ASTNode::Command { name, args, redirections } => SpecCommand {
            name: name@,
            args: strs_view(args@),
            redirections: redirs_view(redirections@),
        },
        ASTNode::Pipeline(_) => arbitrary(),
    }
}

/// The command models of a sequence of `Command` nodes.
pub open spec fn cmds_view(ns: Seq<ASTNode>) -> Seq<SpecCommand> {
    ns.map_values(|n: ASTNode| cmd_view(n))
}

impl ASTNode {
    /// Structural invariant: a pipeline has at least two stages, each a
    /// plain command. A single-stage line is a bare `Command`.
    pub open spec fn wf(self) -> bool {
        match self {
            ASTNode::Command { .. } => true,
            ASTNode::Pipeline(v) => v@.len() >= 2 && forall|i: int|
                0 <= i < v@.len() ==> v@[i] is Command,
        }
    }
}

impl View for ASTNode {
    type V = SpecAst;

    open spec fn view(&self) -> SpecAst {
        match self {
            ASTNode::Command { .. } => SpecAst::Command(cmd_view(*self)),
            ASTNode::Pipeline(v) => SpecAst::Pipeline(cmds_view(v@)),
        }
    }
}

/// Why a line failed to parse.
#[derive(Debug, Clone, Copy, PartialEq, Eq, Structural)]
pub enum ParseError {
    /// A redirection operator was not immediately followed by a word.
    MissingRedirectionTarget,
    /// A command segment held no command name (empty, or only
    /// redirections).
    ExpectedCommandName,
}

/// The (fd, direction) meaning of a redirection operator: bare `>` and
/// `>>` address fd 1, explicit prefixes their own fd, `<` fd 0. Not
/// meaningful for `|`, which is structural.
pub open spec fn spec_redirection_of(op: Operator, target: Seq<char>) -> SpecRedirection {
    match op {
        Operator::Output(None) => SpecRedirection {
            fd: 1,
            direction: RedirectionType::Output,
            target,
        },
        Operator::Output(Some(x)) => SpecRedirection {
            fd: x,
            direction: RedirectionType::Output,
            target,
        },
        Operator::Append(None) => SpecRedirection {
            fd: 1,
            direction: RedirectionType::Append,
            target,
        },
        Operator::Append(Some(x)) => SpecRedirection {
            fd: x,
            direction: RedirectionType::Append,
            target,
        },
        Operator::Input => SpecRedirection { fd: 0, direction: RedirectionType::Input, target },
        Operator::Pipe => arbitrary(),
    }
}

/// Builds the redirection a non-pipe operator and its target word mean.
pub fn redirection_of(op: Operator, target: String) -> (r: Redirection)
    requires
        !(op is Pipe),
    ensures
        r@ == spec_redirection_of(op, target@),
{
    let (fd, direction) = match op {
        Operator::Output(None) => (1u8, RedirectionType::Output),
        Operator::Output(Some(x)) => (x, RedirectionType::Output),
        Operator::Append(None) => (1u8, RedirectionType::Append),
        Operator::Append(Some(x)) => (x, RedirectionType::Append),
        Operator::Input => (0u8, RedirectionType::Input),
        Operator::Pipe => (0u8, RedirectionType::Input),  // excluded by the precondition
    };
    Redirection { fd, direction, target }
}

/// The reference semantics of parsing, one token at a time. `name`,
/// `args` and `redirs` accumulate the current command segment; `done`
/// holds the finished segments. A word becomes the name of the current
/// segment if it has none yet, else an argument; a pipe finishes the
/// segment (which must have a name); any other operator must be
/// followed immediately by a word, and the pair becomes a redirection.
/// At the end of input the current segment is finished the same way.
pub open spec fn spec_parse_rec(
    toks: Seq<SpecToken>,
    name: Option<Seq<char>>,
    args: Seq<Seq<char>>,
    redirs: Seq<SpecRedirection>,
    done: Seq<SpecCommand>,
) -> Result<Seq<SpecCommand>, ParseError>
    decreases toks.len(),
{
    if toks.len() == 0 {
        match name {
            Some(n) => Ok(done.push(SpecCommand { name: n, args, redirections: redirs })),
            None => Err(ParseError::ExpectedCommandName),
        }
    } else {
        match toks[0] {
            SpecToken::Word(w) => {
                if name is None {
                    spec_parse_rec(toks.drop_first(), Some(w), args, redirs, done)
                } else {
                    spec_parse_rec(toks.drop_first(), name, args.push(w), redirs, done)
                }
            },
            SpecToken::Op(op) => {
                if op is Pipe {
                    match name {
                        Some(n) => spec_parse_rec(
                            toks.drop_first(),
                            None,
                            Seq::empty(),
                            Seq::empty(),
                            done.push(SpecCommand { name: n, args, redirections: redirs }),
                        ),
                        None => Err(ParseError::ExpectedCommandName),
                    }
                } else {
                    if toks.len() >= 2 && toks[1] is Word {
                        spec_parse_rec(
                            toks.subrange(2, toks.len() as int),
                            name,
                            args,
                            redirs.push(spec_redirection_of(op, toks[1]->Word_0)),
                            done,
                        )
                    } else {
                        Err(ParseError::MissingRedirectionTarget)
                    }
                }
            },
        }
    }
}

/// What parsing a whole token stream yields: the segment commands, and
/// then a bare command for a single segment, a pipeline otherwise.
pub open spec fn spec_parse(toks: Seq<SpecToken>) -> Result<SpecAst, ParseError> {
    match spec_parse_rec(toks, None, Seq::empty(), Seq::empty(), Seq::empty()) {
        Ok(cmds) => if cmds.len() == 1 {
            Ok(SpecAst::Command(cmds[0]))
        } else {
            Ok(SpecAst::Pipeline(cmds))
        },
        Err(e) => Err(e),
    }
}

/// Successful parsing adds at least one command beyond what was already
/// finished.
proof fn lemma_parse_rec_adds_command(
    toks: Seq<SpecToken>,
    name: Option<Seq<char>>,
    args: Seq<Seq<char>>,
    redirs: Seq<SpecRedirection>,
    done: Seq<SpecCommand>,
)
    ensures
        spec_parse_rec(toks, name, args, redirs, done) matches Ok(cmds) ==> cmds.len()
            >= done.len() + 1,
    decreases toks.len(),
{
    if toks.len() == 0 {
    } else {
        match toks[0] {
            SpecToken::Word(w) => {
                if name is None {
                    lemma_parse_rec_adds_command(toks.drop_first(), Some(w), args, redirs, done);
                } else {
                    lemma_parse_rec_adds_command(toks.drop_first(), name, args.push(w), redirs, done);
                }
            },
            SpecToken::Op(op) => {
                if op is Pipe {
                    match name {
                        Some(n) => {
                            lemma_parse_rec_adds_command(
                                toks.drop_first(),
                                None,
                                Seq::empty(),
                                Seq::empty(),
                                done.push(SpecCommand { name: n, args, redirections: redirs }),
                            );
                        },
                        None => {},
                    }
                } else {
                    if toks.len() >= 2 && toks[1] is Word {
                        lemma_parse_rec_adds_command(
                            toks.subrange(2, toks.len() as int),
                            name,
                            args,
                            redirs.push(spec_redirection_of(op, toks[1]->Word_0)),
                            done,
                        );
                    }
                }
            },
        }
    }
}

/// A parsed pipeline always has at least two stages: a single command
/// is returned as a bare command, never as a one-element pipeline.
pub proof fn lemma_no_singleton_pipeline(toks: Seq<SpecToken>)
    ensures
        spec_parse(toks) matches Ok(ast) ==> (ast matches SpecAst::Pipeline(cmds) ==> cmds.len()
            >= 2),
{
    lemma_parse_rec_adds_command(toks, None, Seq::empty(), Seq::empty(), Seq::empty());
}

/// A lone operator token never parses silently: a lone pipe is missing
/// its command name, and any other lone operator its redirection
/// target.
pub proof fn lemma_lone_operator_rejected(op: Operator)
    ensures
        op is Pipe ==> spec_parse(seq![SpecToken::Op(op)]) == Result::<
            SpecAst,
            ParseError,
        >::Err(ParseError::ExpectedCommandName),
        !(op is Pipe) ==> spec_parse(seq![SpecToken::Op(op)]) == Result::<
            SpecAst,
            ParseError,
        >::Err(ParseError::MissingRedirectionTarget),
{
    let toks = seq![SpecToken::Op(op)];
    assert(toks.len() == 1);
    if op is Pipe {
        assert(spec_parse_rec(toks, None, Seq::empty(), Seq::empty(), Seq::empty())
            == Result::<Seq<SpecCommand>, ParseError>::Err(ParseError::ExpectedCommandName));
    } else {
        assert(spec_parse_rec(toks, None, Seq::empty(), Seq::empty(), Seq::empty())
            == Result::<Seq<SpecCommand>, ParseError>::Err(ParseError::MissingRedirectionTarget));
    }
}

/// The parser over one line's tokens. Build it with [`Parser::new`] and
/// consume it with [`Parser::parse`].
pub struct Parser {
    tokens: Vec<Token>,
    position: usize,
}

impl Parser {
    /// The models of the tokens this parser was built over.
    pub closed spec fn toks(self) -> Seq<SpecToken> {
        toks_view(self.tokens@)
    }

    /// A parser that has not consumed anything yet.
    pub closed spec fn fresh(self) -> bool {
        self.position == 0
    }

    /// A fresh parser over the given tokens.
    pub fn new(tokens: Vec<Token>) -> (r: Self)
        ensures
            r.toks() == toks_view(tokens@),
            r.fresh(),
    {
        Self { tokens, position: 0 }
    }

    /// Parses the whole token stream: exactly the tree or the error
    /// that [`spec_parse`] describes, and on success a well-formed
    /// tree.
    pub fn parse(&mut self) -> (r: Result<ASTNode, ParseError>)
        requires
            old(self).fresh(),
        ensures
            match r {
                Ok(node) => node.wf() && spec_parse(old(self).toks()) == Result::<
                    SpecAst,
                    ParseError,
                >::Ok(node@),
                Err(e) => spec_parse(old(self).toks()) == Result::<SpecAst, ParseError>::Err(e),
            },
    {
        let ghost toks0 = toks_view(self.tokens@);
        let mut name: Option<String> = None;
        let mut args: Vec<String> = Vec::new();
        let mut redirs: Vec<Redirection> = Vec::new();
        let mut cmds: Vec<ASTNode> = Vec::new();
        proof {
            assert(toks0.subrange(0, toks0.len() as int) =~= toks0);
            assert(strs_view(args@) =~= Seq::<Seq<char>>::empty());
            assert(redirs_view(redirs@) =~= Seq::<SpecRedirection>::empty());
            assert(cmds_view(cmds@) =~= Seq::<SpecCommand>::empty());
        }
        while self.position < self.tokens.len()
            invariant
                self.tokens@ == old(self).tokens@,
                self.position <= self.tokens@.len(),
                toks0 == toks_view(self.tokens@),
                forall|i: int| 0 <= i < cmds@.len() ==> cmds@[i] is Command,
                spec_parse_rec(toks0, None, Seq::empty(), Seq::empty(), Seq::empty())
                    == spec_parse_rec(
                    toks0.subrange(self.position as int, toks0.len() as int),
                    match name {
                        Some(s) => Some(s@),
                        None => None,
                    },
                    strs_view(args@),
                    redirs_view(redirs@),
                    cmds_view(cmds@),
                ),
            decreases self.tokens@.len() - self.position,
        {
            let ghost rem = toks0.subrange(self.position as int, toks0.len() as int);
            let n = self.tokens.len();
            let pos = self.position;
            let t = self.tokens[pos].clone();
            proof {
                assert(rem.len() > 0);
                assert(rem[0] == toks0[pos as int]);
                assert(toks0[pos as int] == self.tokens@[pos as int]@);
            }
            match t {
                Token::Word(w) => {
                    self.position = pos + 1;
                    proof {
                        assert(rem.drop_first() =~= toks0.subrange(
                            pos + 1,
                            toks0.len() as int,
                        ));
                    }
                    if name.is_none() {
                        name = Some(w);
                    } else {
                        let ghost old_args = args@;
                        args.push(w);
                        proof {
                            assert(strs_view(args@) =~= strs_view(old_args).push(rem[0]->Word_0));
                        }
                    }
                },
                Token::Operator(op) => {
                    match op {
                        Operator::Pipe => {
                            self.position = pos + 1;
                            proof {
                                assert(rem.drop_first() =~= toks0.subrange(
                                    pos + 1,
                                    toks0.len() as int,
                                ));
                            }
                            match name {
                                Some(nm) => {
                                    let mut seg_args: Vec<String> = Vec::new();
                                    core::mem::swap(&mut seg_args, &mut args);
                                    let mut seg_redirs: Vec<Redirection> = Vec::new();
                                    core::mem::swap(&mut seg_redirs, &mut redirs);
                                    let ghost old_cmds = cmds@;
                                    let node = ASTNode::Command {
                                        name: nm,
                                        args: seg_args,
                                        redirections: seg_redirs,
                                    };
                                    cmds.push(node);
                                    name = None;
                                    proof {
                                        assert(cmds_view(cmds@) =~= cmds_view(old_cmds).push(
                                            cmd_view(cmds@[old_cmds.len() as int]),
                                        ));
                                        assert(strs_view(args@) =~= Seq::<Seq<char>>::empty());
                                        assert(redirs_view(redirs@)
                                            =~= Seq::<SpecRedirection>::empty());
                                    }
                                },
                                None => {
                                    proof {
                                        assert(spec_parse(toks0) == Result::<
                                            SpecAst,
                                            ParseError,
                                        >::Err(ParseError::ExpectedCommandName));
                                    }
                                    return Err(ParseError::ExpectedCommandName);
                                },
                            }
                        },
                        _ => {
                            let mut target: Option<String> = None;
                            if pos + 1 < n {
                                let t2 = self.tokens[pos + 1].clone();
                                match t2 {
                                    Token::Word(w) => {
                                        target = Some(w);
                                    },
                                    Token::Operator(_) => {},
                                }
                            }
                            match target {
                                Some(w) => {
                                    self.position = pos + 2;
                                    let ghost old_redirs = redirs@;
                                    redirs.push(redirection_of(op, w));
                                    proof {
                                        assert(rem.subrange(2, rem.len() as int)
                                            =~= toks0.subrange(pos + 2, toks0.len() as int));
                                        assert(redirs_view(redirs@) =~= redirs_view(
                                            old_redirs,
                                        ).push(spec_redirection_of(op, rem[1]->Word_0)));
                                    }
                                },
                                None => {
                                    proof {
                                        assert(spec_parse(toks0) == Result::<
                                            SpecAst,
                                            ParseError,
                                        >::Err(ParseError::MissingRedirectionTarget));
                                    }
                                    return Err(ParseError::MissingRedirectionTarget);
                                },
                            }
                        },
                    }
                },
            }
        }
        proof {
            assert(toks0.subrange(self.position as int, toks0.len() as int)
                =~= Seq::<SpecToken>::empty());
        }
        match name {
            Some(nm) => {
                let ghost old_cmds = cmds@;
                let node = ASTNode::Command { name: nm, args, redirections: redirs };
                cmds.push(node);
                proof {
                    assert(cmds_view(cmds@) =~= cmds_view(old_cmds).push(
                        cmd_view(cmds@[old_cmds.len() as int]),
                    ));
                }
                if cmds.len() == 1 {
                    let node = cmds.pop().unwrap();
                    proof {
                        assert(cmds_view(old_cmds.push(node)).len() == 1);
                        assert(node is Command);
                    }
                    Ok(node)
                } else {
                    proof {
                        lemma_parse_rec_adds_command(
                            toks0,
                            None,
                            Seq::empty(),
                            Seq::empty(),
                            Seq::empty(),
                        );
                    }
                    Ok(ASTNode::Pipeline(cmds))
                }
            },
            None => Err(ParseError::ExpectedCommandName),
        }
    }
}

} // verus!
