use shell_engine::command::{
    get_command, is_builtin, probes, run_command, Action, Command, CommandResult, Reply,
};
use shell_engine::host::{as_text, Host};

fn host() -> Host {
    Host {
        cwd: Some("/work/dir".to_string()),
        home: Some("/home/alice".to_string()),
        search_path: Some("/x:/y".to_string()),
        files: vec!["/x/ls".to_string(), "/y/ls".to_string(), "/y/cat".to_string()],
    }
}

fn print(line: &str) -> Action {
    Action::Print(line.to_string())
}

fn success(action: Action) -> Reply {
    Reply { outcome: CommandResult::Success, action }
}

fn fail(action: Action) -> Reply {
    Reply { outcome: CommandResult::Fail, action }
}

#[test]
fn blank_input_fails_without_output() {
    for line in ["", " ", "   \t ", "\n", "\r\n", " \u{a0}\u{2003}\n"] {
        let reply = run_command(line, &host());
        assert_eq!(reply, fail(Action::Nothing));
        assert_eq!(reply.action.report(true), None);
        assert_eq!(reply.action.report(false), None);
    }
}

#[test]
fn exit_ends_the_session_without_output() {
    for line in ["exit", "exit\n", "  exit  ", "exit 0", "exit now or never"] {
        let reply = run_command(line, &host());
        assert_eq!(reply, Reply { outcome: CommandResult::Exit, action: Action::Nothing });
        assert_eq!(reply.action.report(true), None);
        assert!(reply.outcome.ends_session());
    }
}

#[test]
fn only_exit_ends_the_session() {
    assert!(CommandResult::Exit.ends_session());
    assert!(!CommandResult::Success.ends_session());
    assert!(!CommandResult::Fail.ends_session());
    for line in ["", "echo exit", "type exit", "pwd", "cd /", "ls", "frobnicate", "exits", "Exit"] {
        assert!(!run_command(line, &host()).outcome.ends_session());
    }
}

#[test]
fn unknown_command_fails_and_says_so() {
    let reply = run_command("frobnicate", &host());
    assert_eq!(reply, fail(print("frobnicate: command not found")));
    assert_eq!(reply.action.report(true), Some("frobnicate: command not found".to_string()));
    assert!(!reply.outcome.ends_session());
}

#[test]
fn unknown_command_with_arguments_names_the_command_only() {
    assert_eq!(
        run_command("  frobnicate --now  \n", &host()),
        fail(print("frobnicate: command not found"))
    );
}

#[test]
fn builtin_names_are_case_sensitive() {
    assert_eq!(run_command("EXIT", &host()), fail(print("EXIT: command not found")));
    assert_eq!(run_command("Echo hi", &host()), fail(print("Echo: command not found")));
}

#[test]
fn echo_prints_its_argument_as_it_is() {
    assert_eq!(run_command("echo hello   world", &host()), success(print("hello   world")));
    assert_eq!(run_command("echo ~ $HOME *", &host()), success(print("~ $HOME *")));
}

#[test]
fn echo_without_argument_prints_nothing() {
    assert_eq!(run_command("echo", &host()), success(Action::Nothing));
    assert_eq!(run_command("echo   \n", &host()), success(Action::Nothing));
}

#[test]
fn type_of_a_builtin() {
    assert_eq!(run_command("type exit", &host()), success(print("exit is a shell builtin")));
    for name in ["echo", "type", "pwd", "cd"] {
        let expected = format!("{} is a shell builtin", name);
        assert_eq!(run_command(&format!("type {}", name), &host()), success(print(&expected)));
    }
}

#[test]
fn type_of_an_unknown_name() {
    assert_eq!(run_command("type nosuchcmd", &host()), success(print("nosuchcmd: not found")));
}

#[test]
fn type_of_an_executable_gives_the_resolved_path() {
    assert_eq!(run_command("type ls", &host()), success(print("ls is /x/ls")));
    assert_eq!(run_command("type cat", &host()), success(print("cat is /y/cat")));
}

#[test]
fn type_looks_at_the_first_word_of_its_argument() {
    assert_eq!(run_command("type   ls   cat", &host()), success(print("ls is /x/ls")));
}

#[test]
fn type_without_argument_prints_nothing() {
    assert_eq!(run_command("type", &host()), success(Action::Nothing));
}

#[test]
fn pwd_prints_the_working_directory() {
    assert_eq!(run_command("pwd", &host()), success(print("/work/dir")));
    assert_eq!(run_command("pwd ignored", &host()), success(print("/work/dir")));
}

#[test]
fn pwd_is_silent_without_a_working_directory() {
    let mut h = host();
    h.cwd = None;
    assert_eq!(run_command("pwd", &h), success(Action::Nothing));
}

#[test]
fn cd_asks_for_the_normalized_directory() {
    let complaint = "cd: /a/b/../c: No such file or directory".to_string();
    assert_eq!(
        run_command("cd /a/b/../c", &host()),
        success(Action::ChangeDir { target: "/a/c".to_string(), complaint })
    );
}

#[test]
fn cd_supports_home_and_relative_paths() {
    let reply = run_command("cd ~/docs", &host());
    match reply.action {
        Action::ChangeDir { target, .. } => assert_eq!(target, "/home/alice/docs"),
        other => panic!("{:?}", other),
    }
    let reply = run_command("cd ../up", &host());
    match reply.action {
        Action::ChangeDir { target, .. } => assert_eq!(target, "/work/up"),
        other => panic!("{:?}", other),
    }
}

#[test]
fn cd_without_argument_does_nothing() {
    assert_eq!(run_command("cd", &host()), success(Action::Nothing));
}

#[test]
fn cd_that_fails_complains_and_leaves_the_directory() {
    let h = host();
    let reply = run_command("cd /nonexistent", &h);
    assert_eq!(reply.outcome, CommandResult::Success);
    assert_eq!(
        reply.action,
        Action::ChangeDir {
            target: "/nonexistent".to_string(),
            complaint: "cd: /nonexistent: No such file or directory".to_string(),
        }
    );
    assert_eq!(
        reply.action.report(false),
        Some("cd: /nonexistent: No such file or directory".to_string())
    );
    assert_eq!(run_command("pwd", &h), success(print("/work/dir")));
}

#[test]
fn cd_that_succeeds_is_silent() {
    let reply = run_command("cd /tmp", &host());
    assert_eq!(reply.action.report(true), None);
}

#[test]
fn cd_that_cannot_be_resolved_complains() {
    let mut h = host();
    h.home = None;
    assert_eq!(
        run_command("cd ~", &h),
        success(print("cd: ~: No such file or directory"))
    );
    h.cwd = None;
    assert_eq!(
        run_command("cd rel", &h),
        success(print("cd: rel: No such file or directory"))
    );
}

#[test]
fn executable_is_spawned_with_one_argument() {
    assert_eq!(
        run_command("ls -l  /tmp", &host()),
        success(Action::Spawn {
            program: "/x/ls".to_string(),
            argument: Some("-l  /tmp".to_string()),
        })
    );
    assert_eq!(
        run_command("cat", &host()),
        success(Action::Spawn { program: "/y/cat".to_string(), argument: None })
    );
}

#[test]
fn spawn_is_silent_however_it_ends() {
    let reply = run_command("ls", &host());
    assert_eq!(reply.action.report(true), None);
    assert_eq!(reply.action.report(false), None);
}

#[test]
fn get_command_knows_the_builtins() {
    let h = host();
    assert_eq!(get_command("exit", &h), Some(Command::Exit));
    assert_eq!(get_command("echo", &h), Some(Command::Echo));
    assert_eq!(get_command("type", &h), Some(Command::Type));
    assert_eq!(get_command("pwd", &h), Some(Command::Pwd));
    assert_eq!(get_command("cd", &h), Some(Command::Cd));
}

#[test]
fn get_command_falls_back_to_the_search_path() {
    let h = host();
    assert_eq!(get_command("ls", &h), Some(Command::Executable("/x/ls".to_string())));
    assert_eq!(get_command("nosuchcmd", &h), None);
    assert_eq!(get_command("", &h), None);
}

#[test]
fn get_command_prefers_a_builtin_to_a_file_of_its_name() {
    let mut h = host();
    h.files.push("/x/echo".to_string());
    assert_eq!(get_command("echo", &h), Some(Command::Echo));
}

#[test]
fn get_type_describes_the_command() {
    assert_eq!(Command::Exit.get_type(), "a shell builtin");
    assert_eq!(Command::Cd.get_type(), "a shell builtin");
    assert_eq!(Command::Executable("/x/ls".to_string()).get_type(), "/x/ls");
}

#[test]
fn execute_answers_for_each_command() {
    let h = host();
    assert_eq!(
        Command::Exit.execute(Some("1"), &h),
        Reply { outcome: CommandResult::Exit, action: Action::Nothing }
    );
    assert_eq!(Command::Echo.execute(Some("a b"), &h), success(print("a b")));
    assert_eq!(Command::Type.execute(Some("  cd "), &h), success(print("cd is a shell builtin")));
    assert_eq!(Command::Type.execute(Some("   "), &h), success(Action::Nothing));
    assert_eq!(Command::Pwd.execute(None, &h), success(print("/work/dir")));
    assert_eq!(
        Command::Executable("/opt/tool".to_string()).execute(Some("x y"), &h),
        success(Action::Spawn { program: "/opt/tool".to_string(), argument: Some("x y".to_string()) })
    );
}

#[test]
fn is_builtin_knows_the_five_names() {
    for name in ["exit", "echo", "type", "pwd", "cd"] {
        assert!(is_builtin(name));
    }
    for name in ["", "ls", "exit ", "CD", "types"] {
        assert!(!is_builtin(name));
    }
}

#[test]
fn probes_list_what_the_answer_depends_on() {
    let none: Vec<String> = Vec::new();
    assert_eq!(probes("ls -l", Some("/x:/y")), vec!["/x/ls".to_string(), "/y/ls".to_string()]);
    assert_eq!(probes("type cat", Some("/x:/y")), vec!["/x/cat".to_string(), "/y/cat".to_string()]);
    assert_eq!(probes("type cd", Some("/x:/y")), none);
    assert_eq!(probes("type", Some("/x:/y")), none);
    assert_eq!(probes("echo ls", Some("/x:/y")), none);
    assert_eq!(probes("cd ls", Some("/x:/y")), none);
    assert_eq!(probes("", Some("/x:/y")), none);
    assert_eq!(probes("ls", None), none);
}

#[test]
fn files_outside_the_probes_do_not_matter() {
    let mut h = host();
    let before = run_command("type ls", &h);
    h.files.push("/z/ls".to_string());
    h.files.push("/x/other".to_string());
    assert_eq!(run_command("type ls", &h), before);
}

#[test]
fn host_new_keeps_what_was_observed() {
    let h = Host::new(
        Some("/w".to_string()),
        Some("/x:/y".to_string()),
        vec!["/x/ls".to_string()],
    );
    assert_eq!(h.cwd, Some("/w".to_string()));
    assert_eq!(h.search_path, Some("/x:/y".to_string()));
    assert_eq!(h.files, vec!["/x/ls".to_string()]);
    if let Some(home) = &h.home {
        assert_eq!(run_command("cd ~", &h).outcome, CommandResult::Success);
        assert!(home.chars().count() == home.chars().count());
    }
}

#[test]
fn as_text_borrows_the_string() {
    assert_eq!(as_text(&Some("a".to_string())), Some("a"));
    assert_eq!(as_text(&None), None);
}
