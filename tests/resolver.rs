use minishell::resolver::{
    builtin_of, first_executable, is_builtin, is_executable, split_path_list, type_handler,
    Builtin, TypeResult,
};

#[test]
fn builtin_names_are_recognised() {
    assert_eq!(builtin_of("exit"), Some(Builtin::Exit));
    assert_eq!(builtin_of("echo"), Some(Builtin::Echo));
    assert_eq!(builtin_of("type"), Some(Builtin::Type));
    assert_eq!(builtin_of("pwd"), Some(Builtin::Pwd));
    assert_eq!(builtin_of("cd"), Some(Builtin::Cd));
}

#[test]
fn other_names_are_not_builtins() {
    assert_eq!(builtin_of("ls"), None);
    assert_eq!(builtin_of("Exit"), None);
    assert_eq!(builtin_of("exit "), None);
    assert_eq!(builtin_of(""), None);
    assert!(!is_builtin("cdx"));
    assert!(is_builtin("pwd"));
}

#[test]
fn type_of_builtin() {
    let r = type_handler("cd", Some(String::from("/bin")));
    assert!(matches!(&r, TypeResult::Builtin(n) if n == "cd"));
    assert_eq!(r.describe(), "cd is a shell builtin");
}

#[test]
fn type_of_unknown_command() {
    let r = type_handler("nonexistent-xyz", None);
    assert!(matches!(&r, TypeResult::Unknown(n) if n == "nonexistent-xyz"));
    assert_eq!(r.describe(), "nonexistent-xyz: not found");
}

#[test]
fn type_of_found_executable() {
    let r = type_handler("ls", Some(String::from("/usr/bin")));
    assert_eq!(r.describe(), "ls is /usr/bin/ls");
}

#[test]
fn split_keeps_order() {
    assert_eq!(split_path_list("/usr/bin:/bin:/opt/x"), vec!["/usr/bin", "/bin", "/opt/x"]);
}

#[test]
fn split_single_entry() {
    assert_eq!(split_path_list("/bin"), vec!["/bin"]);
}

#[test]
fn split_empty_value() {
    assert_eq!(split_path_list(""), vec![""]);
}

#[test]
fn split_keeps_empty_entries() {
    assert_eq!(split_path_list(":/bin::"), vec!["", "/bin", "", ""]);
}

#[test]
fn executable_needs_a_file() {
    assert!(!is_executable(false, 0o755));
}

#[test]
fn executable_needs_an_exec_bit() {
    assert!(!is_executable(true, 0o644));
    assert!(is_executable(true, 0o100));
    assert!(is_executable(true, 0o010));
    assert!(is_executable(true, 0o001));
    assert!(is_executable(true, 0o100755));
}

#[test]
fn first_executable_wins() {
    let dirs = vec![String::from("/a"), String::from("/b"), String::from("/c")];
    assert_eq!(first_executable(&dirs, &vec![false, true, true]), Some(String::from("/b")));
    assert_eq!(first_executable(&dirs, &vec![true, true, false]), Some(String::from("/a")));
    assert_eq!(first_executable(&dirs, &vec![false, false, false]), None);
}

#[test]
fn directories_without_flags_are_not_usable() {
    let dirs = vec![String::from("/a"), String::from("/b")];
    assert_eq!(first_executable(&dirs, &vec![false]), None);
    assert_eq!(first_executable(&dirs, &vec![]), None);
}
