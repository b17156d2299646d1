use rshell::resolve::{builtin_of, check_path, resolve, split_colon, Command, PathError};

fn strings(v: &[&str]) -> Vec<String> {
    v.iter().map(|s| s.to_string()).collect()
}

#[test]
fn path_order_earliest_directory_wins() {
    let dirs = strings(&["/x", "/y"]);
    let ok = vec![true, true];
    assert_eq!(check_path("foo", &dirs, &ok), Ok("/x/foo".to_string()));
}

#[test]
fn later_directory_found_when_earlier_misses() {
    let dirs = strings(&["/x", "/y"]);
    let ok = vec![false, true];
    assert_eq!(check_path("foo", &dirs, &ok), Ok("/y/foo".to_string()));
}

#[test]
fn no_hit_anywhere_is_an_error() {
    let dirs = strings(&["/x", "/y"]);
    let ok = vec![false, false];
    assert_eq!(check_path("foo", &dirs, &ok), Err(PathError));
}

#[test]
fn builtins_resolve_by_exact_name() {
    assert_eq!(builtin_of("exit"), Some(Command::Exit));
    assert_eq!(builtin_of("echo"), Some(Command::Echo));
    assert_eq!(builtin_of("type"), Some(Command::Type));
    assert_eq!(builtin_of("pwd"), Some(Command::Pwd));
    assert_eq!(builtin_of("cd"), Some(Command::Cd));
    assert_eq!(builtin_of("history"), Some(Command::History));
    assert_eq!(builtin_of("echoo"), None);
    assert_eq!(builtin_of("Echo"), None);
}

#[test]
fn builtin_takes_precedence_over_path() {
    let dirs = strings(&["/x"]);
    let ok = vec![true];
    assert_eq!(resolve("echo", &dirs, &ok), Command::Echo);
}

#[test]
fn unknown_name_resolves_through_path() {
    let dirs = strings(&["/usr/bin"]);
    let ok = vec![true];
    assert_eq!(
        resolve("foo", &dirs, &ok),
        Command::External("/usr/bin/foo".to_string())
    );
}

#[test]
fn unknown_name_with_no_hit_is_invalid() {
    let dirs = strings(&["/usr/bin"]);
    let ok = vec![false];
    assert_eq!(resolve("foo", &dirs, &ok), Command::Invalid);
}

#[test]
fn split_colon_keeps_order_and_empty_pieces() {
    assert_eq!(split_colon("/x:/y"), strings(&["/x", "/y"]));
    assert_eq!(split_colon(""), strings(&[""]));
    assert_eq!(split_colon("/x:"), strings(&["/x", ""]));
    assert_eq!(split_colon(":a::b"), strings(&["", "a", "", "b"]));
}

#[test]
fn name_string_names_each_command() {
    assert_eq!(Command::Echo.name_string(), "echo");
    assert_eq!(Command::Invalid.name_string(), "invalid");
    assert_eq!(
        Command::External("/bin/ls".to_string()).name_string(),
        "/bin/ls"
    );
}

#[test]
fn get_path_exe_strings_lists_names() {
    let exe = vec![
        ("ls".to_string(), "/bin/ls".to_string()),
        ("cat".to_string(), "/bin/cat".to_string()),
    ];
    assert_eq!(
        rshell::resolve::get_path_exe_strings(&exe),
        vec!["ls".to_string(), "cat".to_string()]
    );
}
