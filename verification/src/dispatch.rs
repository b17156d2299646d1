//! The pure half of the dispatcher: turning a command's redirections
//! into a stream plan (which file, if any, each standard stream is
//! rebound to) and wiring the stages of a pipeline. Opening files and
//! spawning processes stays with the caller.
use vstd::prelude::*;

use crate::parser::{cmds_view, redirs_view, ASTNode, Redirection, RedirectionType, SpecRedirection};

verus! {

/// A file destination for an output stream: the target path, and
/// whether to append (create-if-absent) rather than truncate
/// (create-or-truncate).
#[derive(Debug, PartialEq, Eq)]
pub struct FileDest {
    pub target: String,
    pub append: bool,
}

/// The model of a file destination.
pub struct SpecFileDest {
    pub target: Seq<char>,
    pub append: bool,
}

impl View for FileDest {
    type V = SpecFileDest;

    open spec fn view(&self) -> SpecFileDest {
        SpecFileDest { target: self.target@, append: self.append }
    }
}

/// Where one command's three standard streams go: `None` keeps a
/// stream on its default (the interactive terminal's), `Some`
/// rebinds it to a file.
#[derive(Debug, PartialEq, Eq)]
pub struct StreamPlan {
    pub input: Option<String>,
    pub out: Option<FileDest>,
    pub err: Option<FileDest>,
}

/// The model of a stream plan.
pub struct SpecStreamPlan {
    pub input: Option<Seq<char>>,
    pub out: Option<SpecFileDest>,
    pub err: Option<SpecFileDest>,
}

impl View for StreamPlan {
    type V = SpecStreamPlan;

    open spec fn view(&self) -> SpecStreamPlan {
        SpecStreamPlan {
            input: match &self.input {
                Some(t) => Some(t@),
                None => None,
            },
            out: match &self.out {
                Some(d) => Some(d@),
                None => None,
            },
            err: match &self.err {
                Some(d) => Some(d@),
                None => None,
            },
        }
    }
}

/// The stream plan a redirection list means, applied in occurrence
/// order: a later clause for the same fd supersedes an earlier one.
/// `Input` rebinds fd 0, `Output`/`Append` rebind fd 1 or 2; a clause
/// whose fd and direction the grammar cannot produce together changes
/// nothing.
pub open spec fn spec_plan(redirs: Seq<SpecRedirection>) -> SpecStreamPlan
    decreases redirs.len(),
{
    if redirs.len() == 0 {
        SpecStreamPlan { input: None, out: None, err: None }
    } else {
        let p = spec_plan(redirs.drop_last());
        let r = redirs.last();
        if r.fd == 0 && r.direction is Input {
            SpecStreamPlan { input: Some(r.target), out: p.out, err: p.err }
        } else if r.fd == 1 && (r.direction is Output || r.direction is Append) {
            SpecStreamPlan {
                input: p.input,
                out: Some(SpecFileDest { target: r.target, append: r.direction is Append }),
                err: p.err,
            }
        } else if r.fd == 2 && (r.direction is Output || r.direction is Append) {
            SpecStreamPlan {
                input: p.input,
                out: p.out,
                err: Some(SpecFileDest { target: r.target, append: r.direction is Append }),
            }
        } else {
            p
        }
    }
}

/// Folds a command's redirections, left to right, into its stream plan
/// (see [`spec_plan`]): last write wins per fd.
pub fn plan_streams(redirs: &Vec<Redirection>) -> (r: StreamPlan)
    ensures
        r@ == spec_plan(redirs_view(redirs@)),
{
    let mut plan = StreamPlan { input: None, out: None, err: None };
    let mut i: usize = 0;
    proof {
        assert(redirs_view(redirs@).subrange(0, 0) =~= Seq::<SpecRedirection>::empty());
    }
    while i < redirs.len()
        invariant
            i <= redirs@.len(),
            plan@ == spec_plan(redirs_view(redirs@).subrange(0, i as int)),
        decreases redirs@.len() - i,
    {
        let rd = &redirs[i];
        let is_append = match rd.direction {
            RedirectionType::Append => true,
            _ => false,
        };
        if rd.fd == 0 && matches!(rd.direction, RedirectionType::Input) {
            plan.input = Some(rd.target.clone());
        } else if rd.fd == 1 && !matches!(rd.direction, RedirectionType::Input) {
            plan.out = Some(FileDest { target: rd.target.clone(), append: is_append });
        } else if rd.fd == 2 && !matches!(rd.direction, RedirectionType::Input) {
            plan.err = Some(FileDest { target: rd.target.clone(), append: is_append });
        }
        i += 1;
        proof {
            let rs = redirs_view(redirs@);
            assert(rs.subrange(0, i as int).drop_last() =~= rs.subrange(0, i - 1));
            assert(rs.subrange(0, i as int).last() == redirs@[i - 1]@);
        }
    }
    proof {
        assert(redirs_view(redirs@).subrange(0, redirs@.len() as int) =~= redirs_view(redirs@));
    }
    plan
}

/// Where a pipeline stage's standard input comes from.
#[derive(Debug, PartialEq, Eq)]
pub enum StageInput {
    /// The interactive terminal's own input.
    Terminal,
    /// The byte channel from the previous stage's output.
    PipeFromPrevious,
    /// A file named by an `Input` redirection, which overrides the
    /// pipe connection.
    File(String),
}

/// Where a pipeline stage's standard output goes.
#[derive(Debug, PartialEq, Eq)]
pub enum StageOutput {
    /// The interactive terminal's own output.
    Terminal,
    /// The byte channel into the next stage's input.
    PipeToNext,
    /// A file named by an output redirection, which overrides the
    /// pipe connection.
    File(FileDest),
}

/// The model of a stage's input source.
pub enum SpecStageInput {
    Terminal,
    PipeFromPrevious,
    File(Seq<char>),
}

/// The model of a stage's output destination.
pub enum SpecStageOutput {
    Terminal,
    PipeToNext,
    File(SpecFileDest),
}

/// How one stage of a pipeline is wired.
#[derive(Debug, PartialEq, Eq)]
pub struct StagePlan {
    pub input: StageInput,
    pub output: StageOutput,
    pub err: Option<FileDest>,
}

/// The model of a stage plan.
pub struct SpecStagePlan {
    pub input: SpecStageInput,
    pub output: SpecStageOutput,
    pub err: Option<SpecFileDest>,
}

impl View for StagePlan {
    type V = SpecStagePlan;

    open spec fn view(&self) -> SpecStagePlan {
        SpecStagePlan {
            input: match &self.input {
                StageInput::Terminal => SpecStageInput::Terminal,
                StageInput::PipeFromPrevious => SpecStageInput::PipeFromPrevious,
                StageInput::File(t) => SpecStageInput::File(t@),
            },
            output: match &self.output {
                StageOutput::Terminal => SpecStageOutput::Terminal,
                StageOutput::PipeToNext => SpecStageOutput::PipeToNext,
                StageOutput::File(d) => SpecStageOutput::File(d@),
            },
            err: match &self.err {
                Some(d) => Some(d@),
                None => None,
            },
        }
    }
}

/// How stage `i` of `n` is wired: each adjacent pair of stages is
/// connected output-to-input by a byte channel; the first stage reads
/// from and the last writes to the terminal; a redirection on a stage
/// overrides the pipe connection for that fd on that stage.
pub open spec fn spec_stage_plan(redirs: Seq<SpecRedirection>, i: int, n: int) -> SpecStagePlan {
    let p = spec_plan(redirs);
    SpecStagePlan {
        input: match p.input {
            Some(t) => SpecStageInput::File(t),
            None => if i > 0 {
                SpecStageInput::PipeFromPrevious
            } else {
                SpecStageInput::Terminal
            },
        },
        output: match p.out {
            Some(d) => SpecStageOutput::File(d),
            None => if i < n - 1 {
                SpecStageOutput::PipeToNext
            } else {
                SpecStageOutput::Terminal
            },
        },
        err: p.err,
    }
}

/// Wires every stage of a pipeline (see [`spec_stage_plan`]). The
/// caller starts all stages so they run concurrently, then waits on
/// them all.
pub fn pipeline_plan(stages: &Vec<ASTNode>) -> (r: Vec<StagePlan>)
    requires
        forall|i: int| 0 <= i < stages@.len() ==> stages@[i] is Command,
    ensures
        r@.len() == stages@.len(),
        forall|i: int| 0 <= i < r@.len() ==> r@[i]@ == spec_stage_plan(
            cmds_view(stages@)[i].redirections,
            i,
            stages@.len() as int,
        ),
{
    let n = stages.len();
    let mut r: Vec<StagePlan> = Vec::new();
    let mut i: usize = 0;
    while i < n
        invariant
            i <= n,
            n == stages@.len(),
            forall|k: int| 0 <= k < stages@.len() ==> stages@[k] is Command,
            r@.len() == i,
            forall|k: int| 0 <= k < i ==> r@[k]@ == spec_stage_plan(
                cmds_view(stages@)[k].redirections,
                k,
                n as int,
            ),
        decreases n - i,
    {
        let plan = match &stages[i] {
            ASTNode::Command { redirections, .. } => plan_streams(redirections),
            ASTNode::Pipeline(_) => StreamPlan { input: None, out: None, err: None },  // excluded by the precondition
        };
        let input = match plan.input {
            Some(t) => StageInput::File(t),
            None => if i > 0 {
                StageInput::PipeFromPrevious
            } else {
                StageInput::Terminal
            },
        };
        let output = match plan.out {
            Some(d) => StageOutput::File(d),
            None => if i < n - 1 {
                StageOutput::PipeToNext
            } else {
                StageOutput::Terminal
            },
        };
        r.push(StagePlan { input, output, err: plan.err });
        i += 1;
    }
    r
}

} // verus!
