use rshell::builtins::{
    cd_error_message, cd_target, echo_cmd, exit_cmd, history_action, history_lines, invalid_cmd,
    type_cmd, HistoryAction,
};
use rshell::resolve::Command;

fn strings(v: &[&str]) -> Vec<String> {
    v.iter().map(|s| s.to_string()).collect()
}

#[test]
fn echo_joins_arguments_with_single_spaces() {
    assert_eq!(echo_cmd(&strings(&["a", "b", "c"])), "a b c");
    assert_eq!(echo_cmd(&strings(&["a b"])), "a b");
    assert_eq!(echo_cmd(&strings(&[])), "");
}

#[test]
fn invalid_command_message() {
    assert_eq!(invalid_cmd("foo"), "foo: command not found");
}

#[test]
fn type_reports_a_builtin() {
    assert_eq!(
        type_cmd(&strings(&["echo"]), &Command::Echo),
        Ok("echo is a shell builtin".to_string())
    );
}

#[test]
fn type_reports_an_external_path() {
    assert_eq!(
        type_cmd(&strings(&["ls"]), &Command::External("/bin/ls".to_string())),
        Ok("ls is /bin/ls".to_string())
    );
}

#[test]
fn type_reports_not_found_on_the_error_stream() {
    assert_eq!(
        type_cmd(&strings(&["foo"]), &Command::Invalid),
        Err("foo: not found".to_string())
    );
}

#[test]
fn type_without_operand_is_a_usage_error() {
    assert_eq!(
        type_cmd(&strings(&[]), &Command::Invalid),
        Err("type: missing operand".to_string())
    );
}

#[test]
fn exit_uses_its_numeric_operand() {
    assert_eq!(exit_cmd(&strings(&["3"])), 3);
    assert_eq!(exit_cmd(&strings(&["-7"])), -7);
}

#[test]
fn exit_defaults_to_zero() {
    assert_eq!(exit_cmd(&strings(&[])), 0);
    assert_eq!(exit_cmd(&strings(&["abc"])), 0);
    assert_eq!(exit_cmd(&strings(&["99999999999999999999"])), 0);
}

#[test]
fn cd_defaults_to_home() {
    assert_eq!(cd_target(&strings(&[]), "/home/u"), "/home/u");
}

#[test]
fn cd_expands_a_leading_tilde() {
    assert_eq!(cd_target(&strings(&["~/src"]), "/home/u"), "/home/u/src");
    assert_eq!(cd_target(&strings(&["~"]), "/home/u"), "/home/u");
}

#[test]
fn cd_keeps_a_plain_path() {
    assert_eq!(cd_target(&strings(&["/tmp"]), "/home/u"), "/tmp");
}

#[test]
fn cd_error_names_the_directory() {
    assert_eq!(
        cd_error_message("/nope"),
        "cd: /nope: No such file or directory"
    );
}

#[test]
fn history_without_arguments_shows_everything() {
    assert_eq!(history_action(&strings(&[]), 5), HistoryAction::Show(5));
}

#[test]
fn history_with_a_count_shows_that_many() {
    assert_eq!(history_action(&strings(&["2"]), 5), HistoryAction::Show(2));
}

#[test]
fn history_with_an_unparseable_count_shows_everything() {
    assert_eq!(history_action(&strings(&["x"]), 5), HistoryAction::Show(5));
    assert_eq!(history_action(&strings(&["-3"]), 5), HistoryAction::Show(5));
}

#[test]
fn history_file_switches_need_a_file() {
    assert_eq!(
        history_action(&strings(&["-r", "f"]), 0),
        HistoryAction::Load("f".to_string())
    );
    assert_eq!(
        history_action(&strings(&["-w", "f"]), 0),
        HistoryAction::Save("f".to_string())
    );
    assert_eq!(history_action(&strings(&["-r"]), 0), HistoryAction::Nothing);
    assert_eq!(history_action(&strings(&["-w"]), 0), HistoryAction::Nothing);
}

#[test]
fn history_two_after_five_lines_prints_entries_four_and_five() {
    let entries = strings(&["a", "b", "c", "d", "e"]);
    assert_eq!(
        history_lines(&entries, 2),
        strings(&["4  d", "5  e"])
    );
}

#[test]
fn history_numbering_is_chronological_from_one() {
    let entries = strings(&["first", "second"]);
    assert_eq!(
        history_lines(&entries, 10),
        strings(&["1  first", "2  second"])
    );
    assert_eq!(history_lines(&entries, 0), Vec::<String>::new());
}
