use rshell::lexer::Lexer;
use rshell::token::{Operator, Token};

fn lex(line: &str) -> Vec<Token> {
    let mut lexer = Lexer::new(line);
    lexer.lex()
}

fn word(s: &str) -> Token {
    Token::Word(s.to_string())
}

#[test]
fn lexing_is_deterministic() {
    let line = "echo 'a b' | grep \"x\\\"y\" 2>> log";
    let first = lex(line);
    let second = lex(line);
    assert_eq!(first, second);
}

#[test]
fn single_quotes_make_one_argument() {
    assert_eq!(lex("echo 'a b'"), vec![word("echo"), word("a b")]);
}

#[test]
fn unquoted_backslash_escapes_a_space() {
    assert_eq!(lex("echo a\\ b"), vec![word("echo"), word("a b")]);
}

#[test]
fn double_quote_backslash_escapes_a_quote() {
    assert_eq!(lex("echo \"a\\\"b\""), vec![word("echo"), word("a\"b")]);
}

#[test]
fn double_quote_backslash_is_literal_before_other_characters() {
    assert_eq!(lex("echo \"a\\nb\""), vec![word("echo"), word("a\\nb")]);
}

#[test]
fn single_quotes_take_everything_literally() {
    assert_eq!(lex("echo 'a\\ b'"), vec![word("echo"), word("a\\ b")]);
}

#[test]
fn pipe_splits_words() {
    assert_eq!(
        lex("a | b"),
        vec![word("a"), Token::Operator(Operator::Pipe), word("b")]
    );
}

#[test]
fn pipe_needs_no_spaces() {
    assert_eq!(
        lex("a|b"),
        vec![word("a"), Token::Operator(Operator::Pipe), word("b")]
    );
}

#[test]
fn digit_prefix_merges_into_fd_operator() {
    assert_eq!(
        lex("cmd 2> err.txt"),
        vec![
            word("cmd"),
            Token::Operator(Operator::Output(Some(2))),
            word("err.txt"),
        ]
    );
}

#[test]
fn digit_prefix_merges_into_fd_append_operator() {
    assert_eq!(
        lex("cmd 1>> out.txt"),
        vec![
            word("cmd"),
            Token::Operator(Operator::Append(Some(1))),
            word("out.txt"),
        ]
    );
}

#[test]
fn non_numeric_word_before_output_operator_is_flushed() {
    assert_eq!(
        lex("ab> f"),
        vec![word("ab"), Token::Operator(Operator::Output(None)), word("f")]
    );
}

#[test]
fn double_output_operator_is_append() {
    assert_eq!(
        lex("a >> f"),
        vec![word("a"), Token::Operator(Operator::Append(None)), word("f")]
    );
}

#[test]
fn input_operator_is_recognized() {
    assert_eq!(
        lex("a < f"),
        vec![word("a"), Token::Operator(Operator::Input), word("f")]
    );
}

#[test]
fn large_fd_prefix_stays_a_word() {
    assert_eq!(lex("12> f"), vec![word("12>"), word("f")]);
}

#[test]
fn unterminated_quote_becomes_a_word() {
    assert_eq!(lex("echo 'abc"), vec![word("echo"), word("abc")]);
}

#[test]
fn trailing_backslash_is_kept() {
    assert_eq!(lex("echo a\\"), vec![word("echo"), word("a\\")]);
}

#[test]
fn quoted_operator_text_flushed_in_normal_state_is_an_operator() {
    // the closing quote returns the lexer to its normal state before
    // the flush, so text that spells an operator is classified as one
    assert_eq!(lex("'|'"), vec![Token::Operator(Operator::Pipe)]);
}

#[test]
fn quoted_operator_text_inside_a_word_stays_a_word() {
    assert_eq!(lex("a'|'b"), vec![word("a|b")]);
}

#[test]
fn empty_line_yields_no_tokens() {
    assert_eq!(lex(""), Vec::<Token>::new());
    assert_eq!(lex("   "), Vec::<Token>::new());
}
