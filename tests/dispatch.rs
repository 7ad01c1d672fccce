use tinyshell::builtins::{
    builtin_named, cd_failure, join_from, pwd_failure, search_candidates, type_report, Builtin,
    CdTarget,
};
use tinyshell::dispatch::{interpret, open_failure, outcome_report, route, Action, ProcessOutcome};
use tinyshell::redirect::{Redirection, Stream, WriteMode};

fn strings(v: &[&str]) -> Vec<String> {
    v.iter().map(|s| s.to_string()).collect()
}

#[test]
fn empty_line_does_nothing() {
    assert_eq!(interpret(""), Action::Nothing);
    assert_eq!(interpret("    "), Action::Nothing);
}

#[test]
fn echo_joins_arguments() {
    assert_eq!(
        interpret("echo  hello   'big  world'"),
        Action::Emit { text: "hello big  world\n".to_string(), redirection: None }
    );
    assert_eq!(
        interpret("echo"),
        Action::Emit { text: "\n".to_string(), redirection: None }
    );
}

#[test]
fn echo_with_redirection_keeps_it() {
    assert_eq!(
        interpret("echo hi > out.txt"),
        Action::Emit {
            text: "hi\n".to_string(),
            redirection: Some(Redirection {
                stream: Stream::Stdout,
                mode: WriteMode::Truncate,
                target: "out.txt".to_string(),
            }),
        }
    );
}

#[test]
fn appending_echo_twice_writes_both_lines() {
    let first = interpret("echo one >> log.txt");
    let second = interpret("echo two 1>> log.txt");
    let append = Some(Redirection {
        stream: Stream::Stdout,
        mode: WriteMode::Append,
        target: "log.txt".to_string(),
    });
    assert_eq!(first, Action::Emit { text: "one\n".to_string(), redirection: append.clone() });
    assert_eq!(second, Action::Emit { text: "two\n".to_string(), redirection: append });
}

#[test]
fn missing_redirection_target_is_reported() {
    assert_eq!(
        interpret("ls -l >"),
        Action::Report("Error: missing output file after redirection operator".to_string())
    );
}

#[test]
fn exit_zero_exits() {
    assert_eq!(interpret("exit 0"), Action::Exit(0));
}

#[test]
fn other_exit_forms_run_as_programs() {
    assert_eq!(
        interpret("exit"),
        Action::Spawn { program: "exit".to_string(), args: vec![], redirection: None }
    );
    assert_eq!(
        interpret("exit 1"),
        Action::Spawn { program: "exit".to_string(), args: strings(&["1"]), redirection: None }
    );
}

#[test]
fn type_of_builtin() {
    assert_eq!(interpret("type echo"), Action::Report("echo is a shell builtin".to_string()));
    assert_eq!(interpret("type cd"), Action::Report("cd is a shell builtin".to_string()));
}

#[test]
fn type_of_absent_program() {
    assert_eq!(interpret("type nonexistent_prog_xyz"), Action::LookUp("nonexistent_prog_xyz".to_string()));
    assert_eq!(
        type_report(&"nonexistent_prog_xyz".to_string(), None),
        "nonexistent_prog_xyz: not found"
    );
}

#[test]
fn type_of_found_program() {
    assert_eq!(
        type_report(&"ls".to_string(), Some("/bin/ls".to_string())),
        "ls is /bin/ls"
    );
}

#[test]
fn type_without_argument() {
    assert_eq!(interpret("type"), Action::Report("type: not enough arguments".to_string()));
}

#[test]
fn pwd_prints_directory() {
    assert_eq!(interpret("pwd"), Action::PrintWorkingDirectory);
    assert_eq!(
        pwd_failure(&"denied".to_string()),
        "Error getting current directory: denied"
    );
}

#[test]
fn cd_targets() {
    assert_eq!(
        interpret("cd /usr/local"),
        Action::ChangeDirectory(CdTarget::Absolute("/usr/local".to_string()))
    );
    assert_eq!(interpret("cd ~"), Action::ChangeDirectory(CdTarget::Home));
    assert_eq!(
        interpret("cd ../x"),
        Action::ChangeDirectory(CdTarget::Relative("../x".to_string()))
    );
    assert_eq!(
        interpret("cd ~/docs"),
        Action::ChangeDirectory(CdTarget::Relative("~/docs".to_string()))
    );
}

#[test]
fn cd_without_argument() {
    assert_eq!(interpret("cd"), Action::Report("cd: No directory provided".to_string()));
}

#[test]
fn cd_to_missing_relative_directory() {
    let action = interpret("cd no_such_dir_xyz");
    let target = CdTarget::Relative("no_such_dir_xyz".to_string());
    assert_eq!(action, Action::ChangeDirectory(target.clone()));
    assert_eq!(cd_failure(&target), "cd: no_such_dir_xyz: No such file or directory");
    assert_eq!(cd_failure(&CdTarget::Home), "cd: ~: No such file or directory");
}

#[test]
fn external_program_with_arguments() {
    assert_eq!(
        interpret("grep -n 'a b' file 2> err"),
        Action::Spawn {
            program: "grep".to_string(),
            args: strings(&["-n", "a b", "file"]),
            redirection: Some(Redirection {
                stream: Stream::Stderr,
                mode: WriteMode::Truncate,
                target: "err".to_string(),
            }),
        }
    );
}

#[test]
fn builtin_names_match_exactly() {
    assert_eq!(
        interpret("echoSomething x"),
        Action::Spawn { program: "echoSomething".to_string(), args: strings(&["x"]), redirection: None }
    );
    assert_eq!(builtin_named(&"echo".to_string()), Some(Builtin::Echo));
    assert_eq!(builtin_named(&"exit".to_string()), Some(Builtin::Exit));
    assert_eq!(builtin_named(&"type".to_string()), Some(Builtin::Type));
    assert_eq!(builtin_named(&"pwd".to_string()), Some(Builtin::Pwd));
    assert_eq!(builtin_named(&"cd".to_string()), Some(Builtin::Cd));
    assert_eq!(builtin_named(&"pwdx".to_string()), None);
}

#[test]
fn route_of_empty_command() {
    assert_eq!(route(Vec::new(), None), Action::Nothing);
}

#[test]
fn join_from_skips_leading_words() {
    let v = strings(&["a", "b", "c"]);
    assert_eq!(join_from(&v, 0), "a b c");
    assert_eq!(join_from(&v, 1), "b c");
    assert_eq!(join_from(&v, 3), "");
}

#[test]
fn search_candidates_follow_path_entries() {
    let ls = "ls".to_string();
    assert_eq!(search_candidates("/usr/bin:/bin", &ls), strings(&["/usr/bin/ls", "/bin/ls"]));
    assert_eq!(search_candidates("/opt/", &ls), strings(&["/opt/ls"]));
    assert_eq!(search_candidates("", &ls), strings(&["ls"]));
    assert_eq!(search_candidates("a::b", &ls), strings(&["a/ls", "ls", "b/ls"]));
    assert_eq!(search_candidates("/bin", &"/usr/bin/env".to_string()), strings(&["/usr/bin/env"]));
}

#[test]
fn outcome_reports() {
    let p = "prog".to_string();
    assert_eq!(outcome_report(&p, ProcessOutcome::Exited(0)), None);
    assert_eq!(
        outcome_report(&p, ProcessOutcome::Exited(2)),
        Some("Command prog exited with code 2".to_string())
    );
    assert_eq!(
        outcome_report(&p, ProcessOutcome::Exited(127)),
        Some("Command prog exited with code 127".to_string())
    );
    assert_eq!(
        outcome_report(&p, ProcessOutcome::Exited(-15)),
        Some("Command prog exited with code -15".to_string())
    );
    assert_eq!(
        outcome_report(&p, ProcessOutcome::Exited(i32::MIN)),
        Some("Command prog exited with code -2147483648".to_string())
    );
    assert_eq!(
        outcome_report(&p, ProcessOutcome::Signaled),
        Some("Command prog terminated by signal".to_string())
    );
    assert_eq!(
        outcome_report(&p, ProcessOutcome::NotStarted),
        Some("prog: command not found".to_string())
    );
}

#[test]
fn open_failure_message() {
    assert_eq!(
        open_failure(&"out.txt".to_string(), &"permission denied".to_string()),
        "Error opening out.txt: permission denied"
    );
}
