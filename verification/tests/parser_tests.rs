use rshell::lexer::Lexer;
use rshell::parser::{ASTNode, ParseError, Parser, Redirection, RedirectionType};
use rshell::token::{Operator, Token};

fn parse_line(line: &str) -> Result<ASTNode, ParseError> {
    let mut lexer = Lexer::new(line);
    let tokens = lexer.lex();
    let mut parser = Parser::new(tokens);
    parser.parse()
}

fn command(name: &str, args: &[&str], redirs: Vec<Redirection>) -> ASTNode {
    ASTNode::Command {
        name: name.to_string(),
        args: args.iter().map(|a| a.to_string()).collect(),
        redirections: redirs,
    }
}

#[test]
fn one_command_with_arguments() {
    assert_eq!(
        parse_line("echo a b"),
        Ok(command("echo", &["a", "b"], vec![]))
    );
}

#[test]
fn fd_prefixed_redirection_is_attached() {
    assert_eq!(
        parse_line("cmd 2> err.txt"),
        Ok(command(
            "cmd",
            &[],
            vec![Redirection {
                fd: 2,
                direction: RedirectionType::Output,
                target: "err.txt".to_string(),
            }]
        ))
    );
}

#[test]
fn bare_output_redirection_targets_fd_one() {
    assert_eq!(
        parse_line("cmd a > out.txt"),
        Ok(command(
            "cmd",
            &["a"],
            vec![Redirection {
                fd: 1,
                direction: RedirectionType::Output,
                target: "out.txt".to_string(),
            }]
        ))
    );
}

#[test]
fn append_and_input_redirections() {
    assert_eq!(
        parse_line("cmd >> log < in"),
        Ok(command(
            "cmd",
            &[],
            vec![
                Redirection {
                    fd: 1,
                    direction: RedirectionType::Append,
                    target: "log".to_string(),
                },
                Redirection {
                    fd: 0,
                    direction: RedirectionType::Input,
                    target: "in".to_string(),
                },
            ]
        ))
    );
}

#[test]
fn redirection_may_precede_the_command_name() {
    assert_eq!(
        parse_line("> out cmd a"),
        Ok(command(
            "cmd",
            &["a"],
            vec![Redirection {
                fd: 1,
                direction: RedirectionType::Output,
                target: "out".to_string(),
            }]
        ))
    );
}

#[test]
fn lone_output_operator_is_missing_its_target() {
    assert_eq!(parse_line(">"), Err(ParseError::MissingRedirectionTarget));
}

#[test]
fn lone_pipe_is_missing_a_command_name() {
    assert_eq!(parse_line("|"), Err(ParseError::ExpectedCommandName));
}

#[test]
fn redirection_followed_by_operator_is_missing_its_target() {
    assert_eq!(
        parse_line("a > | b"),
        Err(ParseError::MissingRedirectionTarget)
    );
}

#[test]
fn trailing_pipe_is_missing_a_command_name() {
    assert_eq!(parse_line("a |"), Err(ParseError::ExpectedCommandName));
}

#[test]
fn empty_line_has_no_command_name() {
    assert_eq!(parse_line(""), Err(ParseError::ExpectedCommandName));
}

#[test]
fn three_stage_pipeline_keeps_order() {
    assert_eq!(
        parse_line("a | b | c"),
        Ok(ASTNode::Pipeline(vec![
            command("a", &[], vec![]),
            command("b", &[], vec![]),
            command("c", &[], vec![]),
        ]))
    );
}

#[test]
fn single_command_is_never_a_pipeline() {
    match parse_line("a").unwrap() {
        ASTNode::Command { name, .. } => assert_eq!(name, "a"),
        ASTNode::Pipeline(_) => panic!("a single command must not parse to a pipeline"),
    }
}

#[test]
fn pipeline_stages_keep_their_own_redirections() {
    assert_eq!(
        parse_line("a > f | b"),
        Ok(ASTNode::Pipeline(vec![
            command(
                "a",
                &[],
                vec![Redirection {
                    fd: 1,
                    direction: RedirectionType::Output,
                    target: "f".to_string(),
                }]
            ),
            command("b", &[], vec![]),
        ]))
    );
}

#[test]
fn hand_built_tokens_parse_like_lexed_ones() {
    let tokens = vec![
        Token::Word("cmd".to_string()),
        Token::Operator(Operator::Append(Some(2))),
        Token::Word("log".to_string()),
    ];
    let mut parser = Parser::new(tokens);
    assert_eq!(
        parser.parse(),
        Ok(command(
            "cmd",
            &[],
            vec![Redirection {
                fd: 2,
                direction: RedirectionType::Append,
                target: "log".to_string(),
            }]
        ))
    );
}
