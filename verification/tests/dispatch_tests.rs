use rshell::dispatch::{
    pipeline_plan, plan_streams, FileDest, StageInput, StageOutput, StreamPlan,
};
use rshell::lexer::Lexer;
use rshell::parser::{ASTNode, Parser, Redirection, RedirectionType};
use rshell::strutil::{dec_string, parse_i32, parse_usize};

fn redir(fd: u8, direction: RedirectionType, target: &str) -> Redirection {
    Redirection {
        fd,
        direction,
        target: target.to_string(),
    }
}

#[test]
fn empty_redirections_keep_every_default() {
    let plan = plan_streams(&vec![]);
    assert_eq!(
        plan,
        StreamPlan {
            input: None,
            out: None,
            err: None
        }
    );
}

#[test]
fn output_and_error_streams_are_rebound_separately() {
    let plan = plan_streams(&vec![
        redir(1, RedirectionType::Output, "out.txt"),
        redir(2, RedirectionType::Append, "err.txt"),
    ]);
    assert_eq!(
        plan.out,
        Some(FileDest {
            target: "out.txt".to_string(),
            append: false
        })
    );
    assert_eq!(
        plan.err,
        Some(FileDest {
            target: "err.txt".to_string(),
            append: true
        })
    );
    assert_eq!(plan.input, None);
}

#[test]
fn later_clause_for_the_same_fd_wins() {
    let plan = plan_streams(&vec![
        redir(1, RedirectionType::Output, "first"),
        redir(1, RedirectionType::Append, "second"),
    ]);
    assert_eq!(
        plan.out,
        Some(FileDest {
            target: "second".to_string(),
            append: true
        })
    );
}

#[test]
fn input_redirection_fills_the_input_slot() {
    let plan = plan_streams(&vec![redir(0, RedirectionType::Input, "in.txt")]);
    assert_eq!(plan.input, Some("in.txt".to_string()));
}

fn pipeline_stages(line: &str) -> Vec<ASTNode> {
    let mut lexer = Lexer::new(line);
    let mut parser = Parser::new(lexer.lex());
    match parser.parse().unwrap() {
        ASTNode::Pipeline(stages) => stages,
        ASTNode::Command { .. } => panic!("expected a pipeline"),
    }
}

#[test]
fn three_stages_are_wired_in_a_chain() {
    let plans = pipeline_plan(&pipeline_stages("a | b | c"));
    assert_eq!(plans.len(), 3);
    assert_eq!(plans[0].input, StageInput::Terminal);
    assert_eq!(plans[0].output, StageOutput::PipeToNext);
    assert_eq!(plans[1].input, StageInput::PipeFromPrevious);
    assert_eq!(plans[1].output, StageOutput::PipeToNext);
    assert_eq!(plans[2].input, StageInput::PipeFromPrevious);
    assert_eq!(plans[2].output, StageOutput::Terminal);
    assert!(plans.iter().all(|p| p.err.is_none()));
}

#[test]
fn a_redirection_overrides_the_pipe_connection_on_its_stage() {
    let plans = pipeline_plan(&pipeline_stages("a > f | b"));
    assert_eq!(
        plans[0].output,
        StageOutput::File(FileDest {
            target: "f".to_string(),
            append: false
        })
    );
    assert_eq!(plans[1].input, StageInput::PipeFromPrevious);
    assert_eq!(plans[1].output, StageOutput::Terminal);
}

#[test]
fn decimal_rendering_matches_expected_text() {
    assert_eq!(dec_string(0), "0");
    assert_eq!(dec_string(7), "7");
    assert_eq!(dec_string(42), "42");
    assert_eq!(dec_string(1000), "1000");
    assert_eq!(dec_string(usize::MAX), usize::MAX.to_string());
}

#[test]
fn parse_i32_accepts_what_the_standard_parser_accepts() {
    assert_eq!(parse_i32("3"), Some(3));
    assert_eq!(parse_i32("+3"), Some(3));
    assert_eq!(parse_i32("-3"), Some(-3));
    assert_eq!(parse_i32("007"), Some(7));
    assert_eq!(parse_i32("2147483647"), Some(i32::MAX));
    assert_eq!(parse_i32("-2147483648"), Some(i32::MIN));
    assert_eq!(parse_i32("2147483648"), None);
    assert_eq!(parse_i32("-2147483649"), None);
    assert_eq!(parse_i32(""), None);
    assert_eq!(parse_i32("+"), None);
    assert_eq!(parse_i32("1a"), None);
    assert_eq!(parse_i32(" 1"), None);
}

#[test]
fn parse_usize_rejects_signs_other_than_plus() {
    assert_eq!(parse_usize("25"), Some(25));
    assert_eq!(parse_usize("+25"), Some(25));
    assert_eq!(parse_usize("-0"), None);
    assert_eq!(parse_usize("-1"), None);
    assert_eq!(parse_usize("99999999999999999999999999"), None);
    assert_eq!(parse_usize(""), None);
}
