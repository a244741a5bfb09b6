//! Commands, the registry that resolves a name to one, and the dispatcher.
//!
//! Executing a command performs nothing. It returns an `Action` that says
//! what the caller has to do, and a `CommandResult` that says whether the
//! session goes on.

use vstd::prelude::*;
use vstd::string::StringExecFns;
use crate::host::{as_text, Host, HostView};
use crate::parse::{lemma_parse_blank, parse_command, parse_spec};
use crate::path::{resolve_path, resolve_spec};
use crate::search::{
    candidate_paths, lemma_search_reads_candidates, probe_spec, search_path, search_spec,
};
use crate::text::{is_blank, same_text, texts};

verus! {

/// How the execution of one input line ended.
#[derive(Debug, Clone, Copy, PartialEq, Eq, Structural)]
pub enum CommandResult {
    /// A command ran.
    Success,
    /// No command ran: the line was blank, or its name is not known.
    Fail,
    /// The session must end.
    Exit,
}

/// A command: one of the five builtins, or an executable found on the search
/// path.
#[derive(Debug, Clone, PartialEq, Eq)]
pub enum Command {
    Exit,
    Echo,
    Type,
    Pwd,
    Cd,
    /// An external program, with the path it was found at.
    Executable(String),
}

/// A `Command` as the contracts see it.
pub enum CommandView {
    Exit,
    Echo,
    Type,
    Pwd,
    Cd,
    Executable(Seq<char>),
}

impl View for Command {
    type V = CommandView;

    open spec fn view(&self) -> CommandView {
        match self {
            Command::Exit => CommandView::Exit,
            Command::Echo => CommandView::Echo,
            Command::Type => CommandView::Type,
            Command::Pwd => CommandView::Pwd,
            Command::Cd => CommandView::Cd,
            Command::Executable(path) => CommandView::Executable(path@),
        }
    }
}

impl DeepView for Command {
    type V = CommandView;

    open spec fn deep_view(&self) -> CommandView {
        self@
    }
}

/// What the caller has to do for a command.
#[derive(Debug, Clone, PartialEq, Eq)]
pub enum Action {
    /// Nothing.
    Nothing,
    /// Write the line to the output.
    Print(String),
    /// Make `target` the working directory. Where that fails, the working
    /// directory stays as it is and `complaint` is written to the output.
    ChangeDir { target: String, complaint: String },
    /// Run `program` as a child process, with `argument` as its one argument
    /// where there is one and the output streams of the parent, and wait for
    /// it to end. How it ends does not matter.
    Spawn { program: String, argument: Option<String> },
}

/// An `Action` as the contracts see it.
pub enum ActionView {
    Nothing,
    Print(Seq<char>),
    ChangeDir { target: Seq<char>, complaint: Seq<char> },
    Spawn { program: Seq<char>, argument: Option<Seq<char>> },
}

impl View for Action {
    type V = ActionView;

    open spec fn view(&self) -> ActionView {
        match self {
            Action::Nothing => ActionView::Nothing,
            Action::Print(line) => ActionView::Print(line@),
            Action::ChangeDir { target, complaint } => ActionView::ChangeDir {
                target: target@,
                complaint: complaint@,
            },
            Action::Spawn { program, argument } => ActionView::Spawn {
                program: program@,
                argument: argument.deep_view(),
            },
        }
    }
}

/// The answer to one input line.
#[derive(Debug, Clone, PartialEq, Eq)]
pub struct Reply {
    pub outcome: CommandResult,
    pub action: Action,
}

/// A `Reply` as the contracts see it.
pub struct ReplyView {
    pub outcome: CommandResult,
    pub action: ActionView,
}

impl View for Reply {
    type V = ReplyView;

    open spec fn view(&self) -> ReplyView {
        ReplyView { outcome: self.outcome, action: self.action@ }
    }
}

/// The builtin of the given name. Names are matched exactly.
pub open spec fn builtin(name: Seq<char>) -> Option<CommandView> {
    if name == "exit"@ {
        Some(CommandView::Exit)
    } else if name == "echo"@ {
        Some(CommandView::Echo)
    } else if name == "type"@ {
        Some(CommandView::Type)
    } else if name == "pwd"@ {
        Some(CommandView::Pwd)
    } else if name == "cd"@ {
        Some(CommandView::Cd)
    } else {
        None
    }
}

/// The command of the given name: a builtin, else the executable that the
/// search path gives for the name, else nothing.
pub open spec fn lookup_spec(name: Seq<char>, host: HostView) -> Option<CommandView> {
    match builtin(name) {
        Some(c) => Some(c),
        None => match search_spec(name, host.search_path, host.files) {
            Some(path) => Some(CommandView::Executable(path)),
            None => None,
        },
    }
}

/// How a command describes itself: an executable by its path.
pub open spec fn type_text(c: CommandView) -> Seq<char> {
    match c {
        CommandView::Executable(path) => path,
        _ => "a shell builtin"@,
    }
}

/// What `type` writes about a name.
pub open spec fn type_line(name: Seq<char>, host: HostView) -> Seq<char> {
    match lookup_spec(name, host) {
        Some(c) => name + " is "@ + type_text(c),
        None => name + ": not found"@,
    }
}

/// What is written for a name that is no command.
pub open spec fn unknown_line(name: Seq<char>) -> Seq<char> {
    name + ": command not found"@
}

/// What `cd` writes where its argument cannot be made the working directory.
pub open spec fn cd_complaint(arg: Seq<char>) -> Seq<char> {
    "cd: "@ + arg + ": No such file or directory"@
}

/// What the caller has to do for a command with the given argument string.
pub open spec fn action_spec(c: CommandView, args: Option<Seq<char>>, host: HostView) -> ActionView {
    match c {
        CommandView::Exit => ActionView::Nothing,
        CommandView::Echo => match args {
            Some(text) => ActionView::Print(text),
            None => ActionView::Nothing,
        },
        CommandView::Type => match args {
            Some(text) => match parse_spec(text).0 {
                Some(name) => ActionView::Print(type_line(name, host)),
                None => ActionView::Nothing,
            },
            None => ActionView::Nothing,
        },
        CommandView::Pwd => match host.cwd {
            Some(dir) => ActionView::Print(dir),
            None => ActionView::Nothing,
        },
        CommandView::Cd => match args {
            Some(arg) => match resolve_spec(arg, host.home, host.cwd) {
                Ok(target) => ActionView::ChangeDir { target, complaint: cd_complaint(arg) },
                Err(_) => ActionView::Print(cd_complaint(arg)),
            },
            None => ActionView::Nothing,
        },
        CommandView::Executable(path) => ActionView::Spawn { program: path, argument: args },
    }
}

/// The answer of a command to the given argument string: `exit` ends the
/// session, every other command lets it go on.
pub open spec fn execute_spec(c: CommandView, args: Option<Seq<char>>, host: HostView) -> ReplyView {
    ReplyView {
        outcome: if c is Exit {
            CommandResult::Exit
        } else {
            CommandResult::Success
        },
        action: action_spec(c, args, host),
    }
}

/// The answer to an input line.
pub open spec fn run_spec(input: Seq<char>, host: HostView) -> ReplyView {
    match parse_spec(input).0 {
        None => ReplyView { outcome: CommandResult::Fail, action: ActionView::Nothing },
        Some(name) => match lookup_spec(name, host) {
            Some(c) => execute_spec(c, parse_spec(input).1, host),
            None => ReplyView {
                outcome: CommandResult::Fail,
                action: ActionView::Print(unknown_line(name)),
            },
        },
    }
}

/// The name that an input line has looked up on the search path: the command
/// name unless it is a builtin, and for `type` the name it is asked about
/// unless that is a builtin.
pub open spec fn searched_name(input: Seq<char>) -> Option<Seq<char>> {
    match parse_spec(input).0 {
        None => None,
        Some(name) => match builtin(name) {
            None => Some(name),
            Some(CommandView::Type) => match parse_spec(input).1 {
                Some(text) => match parse_spec(text).0 {
                    Some(asked) => if builtin(asked) is None {
                        Some(asked)
                    } else {
                        None
                    },
                    None => None,
                },
                None => None,
            },
            Some(_) => None,
        },
    }
}

/// The paths that the answer to an input line depends on.
pub open spec fn probes_spec(input: Seq<char>, search: Option<Seq<char>>) -> Seq<Seq<char>> {
    match searched_name(input) {
        Some(name) => probe_spec(name, search),
        None => Seq::empty(),
    }
}

/// The line that is written once the caller has carried an action out;
/// `done` says whether it could.
pub open spec fn report_spec(action: ActionView, done: bool) -> Option<Seq<char>> {
    match action {
        ActionView::Print(line) => Some(line),
        ActionView::ChangeDir { target, complaint } => if done {
            None
        } else {
            Some(complaint)
        },
        _ => None,
    }
}

/// The host once the caller has carried an action out; `done` says whether it
/// could. Only a change of directory that was carried out changes the host.
pub open spec fn settled(host: HostView, action: ActionView, done: bool) -> HostView {
    match action {
        ActionView::ChangeDir { target, complaint } => if done {
            HostView { cwd: Some(target), ..host }
        } else {
            host
        },
        _ => host,
    }
}

impl CommandResult {
    /// Whether the session ends after this result. Only `Exit` ends it.
    pub fn ends_session(&self) -> (r: bool)
        ensures
            r == (*self == CommandResult::Exit),
    {
        match self {
            CommandResult::Exit => true,
            _ => false,
        }
    }
}

impl Command {
    /// How the command describes itself: a builtin as such, an executable by
    /// its path.
    pub fn get_type(&self) -> (r: &str)
        ensures
            r@ == type_text(self@),
    {
        match self {
            Command::Executable(path) => path.as_str(),
            _ => "a shell builtin",
        }
    }

    /// Executes the command with its argument string.
    pub fn execute(&self, args: Option<&str>, host: &Host) -> (r: Reply)
        ensures
            r@ == execute_spec(self@, args.deep_view(), host@),
    {
        match self {
            Command::Exit => Reply { outcome: CommandResult::Exit, action: Action::Nothing },
            Command::Echo => Reply { outcome: CommandResult::Success, action: echo(args, host) },
            Command::Type => Reply { outcome: CommandResult::Success, action: describe(args, host) },
            Command::Pwd => Reply {
                outcome: CommandResult::Success,
                action: print_directory(args, host),
            },
            Command::Cd => Reply {
                outcome: CommandResult::Success,
                action: change_directory(args, host),
            },
            Command::Executable(path) => Reply {
                outcome: CommandResult::Success,
                action: launch(path.as_str(), args, host),
            },
        }
    }
}

impl Action {
    /// The line to write once the action has been carried out; `done` says
    /// whether it could be. A line to print is that line; a change of
    /// directory that failed is answered by its complaint.
    pub fn report(&self, done: bool) -> (line: Option<String>)
        ensures
            line.deep_view() == report_spec(self@, done),
    {
        match self {
            Action::Print(line) => Some(line.clone()),
            Action::ChangeDir { target, complaint } => if done {
                None
            } else {
                Some(complaint.clone())
            },
            _ => None,
        }
    }
}

/// `echo`: its argument string, as it is.
fn echo(args: Option<&str>, _host: &Host) -> (r: Action)
    ensures
        r@ == action_spec(CommandView::Echo, args.deep_view(), _host@),
{
    match args {
        Some(text) => Action::Print(String::from_str(text)),
        None => Action::Nothing,
    }
}

/// `type`: what the name in its argument string resolves to.
fn describe(args: Option<&str>, host: &Host) -> (r: Action)
    ensures
        r@ == action_spec(CommandView::Type, args.deep_view(), host@),
{
    match args {
        None => Action::Nothing,
        Some(text) => match parse_command(text).0 {
            None => Action::Nothing,
            Some(name) => {
                let mut line = String::from_str(name);
                match get_command(name, host) {
                    Some(c) => {
                        line.append(" is ");
                        line.append(c.get_type());
                    },
                    None => {
                        line.append(": not found");
                    },
                }
                Action::Print(line)
            },
        },
    }
}

/// `pwd`: the working directory, where it is known.
fn print_directory(_args: Option<&str>, host: &Host) -> (r: Action)
    ensures
        r@ == action_spec(CommandView::Pwd, _args.deep_view(), host@),
{
    match &host.cwd {
        Some(dir) => Action::Print(dir.clone()),
        None => Action::Nothing,
    }
}

/// `cd`: the change to the directory that its argument names.
fn change_directory(args: Option<&str>, host: &Host) -> (r: Action)
    ensures
        r@ == action_spec(CommandView::Cd, args.deep_view(), host@),
{
    match args {
        None => Action::Nothing,
        Some(arg) => {
            let mut complaint = String::from_str("cd: ");
            complaint.append(arg);
            complaint.append(": No such file or directory");
            match resolve_path(arg, as_text(&host.home), as_text(&host.cwd)) {
                Ok(target) => Action::ChangeDir { target, complaint },
                Err(_) => Action::Print(complaint),
            }
        },
    }
}

/// An executable: the program with the argument string as its one argument.
fn launch(path: &str, args: Option<&str>, _host: &Host) -> (r: Action)
    ensures
        r@ == action_spec(CommandView::Executable(path@), args.deep_view(), _host@),
{
    let argument: Option<String> = match args {
        Some(text) => Some(String::from_str(text)),
        None => None,
    };
    Action::Spawn { program: String::from_str(path), argument }
}

/// Resolves a command name: to a builtin where it is the name of one, else to
/// the executable that the search path gives for it. `None` says that there
/// is no such command.
pub fn get_command(s: &str, host: &Host) -> (r: Option<Command>)
    ensures
        r.deep_view() == lookup_spec(s@, host@),
{
    if same_text(s, "exit") {
        Some(Command::Exit)
    } else if same_text(s, "echo") {
        Some(Command::Echo)
    } else if same_text(s, "type") {
        Some(Command::Type)
    } else if same_text(s, "pwd") {
        Some(Command::Pwd)
    } else if same_text(s, "cd") {
        Some(Command::Cd)
    } else {
        match search_path(s, as_text(&host.search_path), &host.files) {
            Some(path) => Some(Command::Executable(path)),
            None => None,
        }
    }
}

/// Answers one input line: parses it, resolves the command name and executes
/// the command. A blank line fails silently; a name that is no command fails
/// with a line that says so.
pub fn run_command(input: &str, host: &Host) -> (r: Reply)
    ensures
        r@ == run_spec(input@, host@),
{
    let parsed = parse_command(input);
    match parsed.0 {
        None => Reply { outcome: CommandResult::Fail, action: Action::Nothing },
        Some(name) => match get_command(name, host) {
            Some(c) => c.execute(parsed.1, host),
            None => {
                let mut line = String::from_str(name);
                line.append(": command not found");
                Reply { outcome: CommandResult::Fail, action: Action::Print(line) }
            },
        },
    }
}

/// Whether `s` is the name of a builtin.
pub fn is_builtin(s: &str) -> (r: bool)
    ensures
        r == builtin(s@) is Some,
{
    same_text(s, "exit") || same_text(s, "echo") || same_text(s, "type") || same_text(s, "pwd")
        || same_text(s, "cd")
}

/// The paths that the answer to `input` depends on, in the order of the
/// search path. The caller finds out which of them are regular files and
/// lists those in the `Host` that it hands to `run_command`.
pub fn probes(input: &str, search: Option<&str>) -> (r: Vec<String>)
    ensures
        texts(r@) == probes_spec(input@, search.deep_view()),
{
    let parsed = parse_command(input);
    let searched: Option<&str> = match parsed.0 {
        None => None,
        Some(name) => if !is_builtin(name) {
            Some(name)
        } else if same_text(name, "type") {
            match parsed.1 {
                Some(text) => match parse_command(text).0 {
                    Some(asked) => if is_builtin(asked) {
                        None
                    } else {
                        Some(asked)
                    },
                    None => None,
                },
                None => None,
            }
        } else {
            None
        },
    };
    proof {
        lemma_builtin_names();
    }
    assert(searched.deep_view() == searched_name(input@));
    match searched {
        Some(name) => candidate_paths(name, search),
        None => {
            let none: Vec<String> = Vec::new();
            assert(texts(none@) =~= Seq::<Seq<char>>::empty());
            none
        },
    }
}

/// The five builtin names are distinct, so each resolves to its own command.
pub proof fn lemma_builtin_names()
    ensures
        builtin("exit"@) == Some(CommandView::Exit),
        builtin("echo"@) == Some(CommandView::Echo),
        builtin("type"@) == Some(CommandView::Type),
        builtin("pwd"@) == Some(CommandView::Pwd),
        builtin("cd"@) == Some(CommandView::Cd),
{
    reveal_strlit("exit");
    reveal_strlit("echo");
    reveal_strlit("type");
    reveal_strlit("pwd");
    reveal_strlit("cd");
    assert("exit"@[1] != "echo"@[1]);
    assert("type"@[0] != "exit"@[0]);
    assert("type"@[0] != "echo"@[0]);
    assert("pwd"@.len() == 3 && "cd"@.len() == 2 && "exit"@.len() == 4);
}

/// A blank line, the empty one among them, fails and asks for nothing:
/// nothing is written for it, whatever the caller reports.
pub proof fn lemma_blank_line_fails(input: Seq<char>, host: HostView, done: bool)
    requires
        is_blank(input),
    ensures
        run_spec(input, host) == (ReplyView {
            outcome: CommandResult::Fail,
            action: ActionView::Nothing,
        }),
        report_spec(run_spec(input, host).action, done) is None,
{
    lemma_parse_blank(input);
}

/// `exit` ends the session and asks for nothing, whatever follows the name.
pub proof fn lemma_exit_ends_session(input: Seq<char>, host: HostView, done: bool)
    requires
        parse_spec(input).0 == Some("exit"@),
    ensures
        run_spec(input, host) == (ReplyView {
            outcome: CommandResult::Exit,
            action: ActionView::Nothing,
        }),
        report_spec(run_spec(input, host).action, done) is None,
{
}

/// Only `exit` ends the session. A line fails exactly when it is blank or its
/// name is no command; every other line succeeds.
pub proof fn lemma_outcomes(input: Seq<char>, host: HostView)
    ensures
        run_spec(input, host).outcome == CommandResult::Exit <==> parse_spec(input).0 == Some(
            "exit"@,
        ),
        run_spec(input, host).outcome == CommandResult::Fail <==> (is_blank(input) || (parse_spec(
            input,
        ).0 matches Some(name) && lookup_spec(name, host) is None)),
{
    lemma_parse_blank(input);
    lemma_builtin_names();
}

/// A name that is neither a builtin nor found on the search path fails, and
/// the answer says that the command was not found.
pub proof fn lemma_unknown_command(input: Seq<char>, host: HostView, name: Seq<char>)
    requires
        parse_spec(input).0 == Some(name),
        builtin(name) is None,
        search_spec(name, host.search_path, host.files) is None,
    ensures
        run_spec(input, host) == (ReplyView {
            outcome: CommandResult::Fail,
            action: ActionView::Print(name + ": command not found"@),
        }),
{
}

/// `type` tells of a builtin that it is one, of a name found on the search
/// path where it was found, and of any other name that it was not found.
pub proof fn lemma_type_reports(input: Seq<char>, host: HostView, text: Seq<char>, name: Seq<char>)
    requires
        parse_spec(input) == (Some("type"@), Some(text)),
        parse_spec(text).0 == Some(name),
    ensures
        run_spec(input, host).outcome == CommandResult::Success,
        builtin(name) is Some ==> run_spec(input, host).action == ActionView::Print(
            name + " is "@ + "a shell builtin"@,
        ),
        builtin(name) is None ==> match search_spec(name, host.search_path, host.files) {
            Some(path) => run_spec(input, host).action == ActionView::Print(name + " is "@ + path),
            None => run_spec(input, host).action == ActionView::Print(name + ": not found"@),
        },
{
    lemma_builtin_names();
}

/// `cd` to a path that resolves asks for the change to the resolved path,
/// and succeeds whether or not the change can be made. Where it cannot, the
/// complaint is written, the host is as it was, and so `pwd` answers as it did
/// before.
pub proof fn lemma_refused_change_keeps_directory(
    input: Seq<char>,
    host: HostView,
    arg: Seq<char>,
    later: Seq<char>,
)
    requires
        parse_spec(input) == (Some("cd"@), Some(arg)),
        resolve_spec(arg, host.home, host.cwd) is Ok,
        parse_spec(later).0 == Some("pwd"@),
    ensures
        run_spec(input, host).outcome == CommandResult::Success,
        run_spec(input, host).action == (ActionView::ChangeDir {
            target: resolve_spec(arg, host.home, host.cwd).unwrap(),
            complaint: "cd: "@ + arg + ": No such file or directory"@,
        }),
        report_spec(run_spec(input, host).action, false) == Some(
            "cd: "@ + arg + ": No such file or directory"@,
        ),
        settled(host, run_spec(input, host).action, false) == host,
        run_spec(later, settled(host, run_spec(input, host).action, false)).action == match host.cwd {
            Some(dir) => ActionView::Print(dir),
            None => ActionView::Nothing,
        },
{
    lemma_builtin_names();
}

/// The answer to a line depends on the files of the host only through the
/// paths that `probes` lists: two hosts that differ in their files alone, and
/// agree on each of those paths, give the same answer.
pub proof fn lemma_run_reads_probes(input: Seq<char>, host: HostView, files: Set<Seq<char>>)
    requires
        forall|i: int|
            0 <= i < probes_spec(input, host.search_path).len() ==> (host.files.contains(
                #[trigger] probes_spec(input, host.search_path)[i],
            ) <==> files.contains(probes_spec(input, host.search_path)[i])),
    ensures
        run_spec(input, HostView { files, ..host }) == run_spec(input, host),
{
    let other = HostView { files, ..host };
    match searched_name(input) {
        Some(name) => {
            let paths = probe_spec(name, host.search_path);
            assert(paths == probes_spec(input, host.search_path));
            assert forall|i: int| 0 <= i < paths.len() implies (host.files.contains(
                #[trigger] paths[i],
            ) <==> files.contains(paths[i])) by {
                assert(paths[i] == probes_spec(input, host.search_path)[i]);
            }
            lemma_search_reads_candidates(name, host.search_path, host.files, files);
            assert(lookup_spec(name, other) == lookup_spec(name, host));
        },
        None => {},
    }
}

} // verus!
