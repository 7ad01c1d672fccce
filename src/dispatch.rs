//! Decides what one input line asks for. The surrounding program performs
//! the decided action (printing, changing directory, starting a process) and
//! hands the outcome back for the message to show.
use vstd::prelude::*;

use crate::builtins::{
    builtin_line, builtin_named, builtin_of, builtin_report, cd_target, cd_target_of, echo_text,
    join_from, Builtin, CdTarget,
};
use crate::redirect::{
    extract_redirections, extraction, redirection_view, Redirection, RedirectionView,
};
use crate::text::{decimal, decimal_text, is_word};
use crate::tokenizer::{parse_command, tokens_of, words};

verus! {

/// What the surrounding program is to do for one line.
#[derive(Clone, Debug, PartialEq, Eq)]
pub enum Action {
    /// The line holds no command.
    Nothing,
    /// Print this line on the interpreter's own output.
    Report(String),
    /// Write `text` on standard output, after applying `redirection`.
    Emit { text: String, redirection: Option<Redirection> },
    /// End the interpreter with this status.
    Exit(i32),
    /// Print the working directory.
    PrintWorkingDirectory,
    /// Change the working directory.
    ChangeDirectory(CdTarget),
    /// Look for an executable of this name along the search path, for `type`.
    LookUp(String),
    /// Start `program` with `args`, wait for it, and apply `redirection` to
    /// its output.
    Spawn { program: String, args: Vec<String>, redirection: Option<Redirection> },
}

/// The message for an operator that has no file after it.
pub open spec fn missing_target_line() -> Seq<char> {
    "Error: missing output file after redirection operator"@
}

/// Whether `a` starts the external program `cmd[0]` with the remaining words.
pub open spec fn spawns(
    cmd: Seq<Seq<char>>,
    red: Option<RedirectionView>,
    a: Action,
) -> bool {
    a matches Action::Spawn { program, args, redirection } && program@ == cmd[0] && words(args@)
        == cmd.skip(1) && redirection_view(redirection) == red
}

/// The action for the words `cmd` of a command, with `red` its redirection.
/// The first word is matched exactly against the builtins; `exit` is only the
/// builtin when its one argument is `0`, else it is run like any program.
pub open spec fn routed(
    cmd: Seq<Seq<char>>,
    red: Option<RedirectionView>,
    a: Action,
) -> bool {
    if cmd.len() == 0 {
        a is Nothing
    } else {
        match builtin_of(cmd[0]) {
            Some(Builtin::Echo) => a matches Action::Emit { text, redirection } && text@
                == echo_text(cmd.skip(1)) && redirection_view(redirection) == red,
            Some(Builtin::Exit) => if cmd.len() == 2 && cmd[1] == "0"@ {
                a == Action::Exit(0)
            } else {
                spawns(cmd, red, a)
            },
            Some(Builtin::Type) => if cmd.len() < 2 {
                a matches Action::Report(m) && m@ == "type: not enough arguments"@
            } else if builtin_of(cmd[1]) is Some {
                a matches Action::Report(m) && m@ == builtin_line(cmd[1])
            } else {
                a matches Action::LookUp(n) && n@ == cmd[1]
            },
            Some(Builtin::Pwd) => a is PrintWorkingDirectory,
            Some(Builtin::Cd) => if cmd.len() < 2 {
                a matches Action::Report(m) && m@ == "cd: No directory provided"@
            } else {
                a matches Action::ChangeDirectory(t) && cd_target_of(cmd[1], t)
            },
            None => spawns(cmd, red, a),
        }
    }
}

fn spawn(command: &Vec<String>, redirection: Option<Redirection>) -> (a: Action)
    requires
        command.len() > 0,
    ensures
        spawns(words(command@), redirection_view(redirection), a),
{
    let mut args: Vec<String> = Vec::new();
    let ghost cmd = words(command@);
    let mut i: usize = 1;
    assert(words(args@) =~= cmd.subrange(1, 1));
    while i < command.len()
        invariant
            cmd == words(command@),
            1 <= i <= command.len(),
            words(args@) == cmd.subrange(1, i as int),
        decreases command.len() - i,
    {
        let ghost before = args@;
        let t = command[i].clone();
        args.push(t);
        assert(args@ == before.push(t));
        assert(words(before).len() == i - 1);
        assert forall|j: int| 0 <= j < i - 1 implies #[trigger] words(args@)[j] == cmd[j + 1] by {
            assert(words(before)[j] == cmd.subrange(1, i as int)[j]);
        }
        assert(words(args@) =~= cmd.subrange(1, i + 1));
        i = i + 1;
    }
    assert(cmd.subrange(1, command.len() as int) =~= cmd.skip(1));
    Action::Spawn { program: command[0].clone(), args, redirection }
}

/// Routes the words of a command, with its redirection, to a builtin or to an
/// external program.
pub fn route(command: Vec<String>, redirection: Option<Redirection>) -> (a: Action)
    ensures
        routed(words(command@), redirection_view(redirection), a),
{
    let ghost cmd = words(command@);
    if command.len() == 0 {
        return Action::Nothing;
    }
    match builtin_named(&command[0]) {
        Some(Builtin::Echo) => {
            let text = join_from(&command, 1).concat("\n");
            Action::Emit { text, redirection }
        },
        Some(Builtin::Exit) => {
            if command.len() == 2 && is_word(&command[1], "0") {
                Action::Exit(0)
            } else {
                spawn(&command, redirection)
            }
        },
        Some(Builtin::Type) => {
            if command.len() < 2 {
                Action::Report(String::from_str("type: not enough arguments"))
            } else if builtin_named(&command[1]).is_some() {
                Action::Report(builtin_report(&command[1]))
            } else {
                Action::LookUp(command[1].clone())
            }
        },
        Some(Builtin::Pwd) => Action::PrintWorkingDirectory,
        Some(Builtin::Cd) => {
            if command.len() < 2 {
                Action::Report(String::from_str("cd: No directory provided"))
            } else {
                Action::ChangeDirectory(cd_target(&command[1]))
            }
        },
        None => spawn(&command, redirection),
    }
}

/// Decides what `line` asks for: it is split into words, its redirection is
/// extracted, and the command is routed. A redirection operator with no file
/// after it is reported, and nothing is run.
pub fn interpret(line: &str) -> (a: Action)
    ensures
        match extraction(tokens_of(line@)) {
            Ok((cmd, red)) => routed(cmd, red, a),
            Err(_) => a matches Action::Report(m) && m@ == missing_target_line(),
        },
{
    let tokens = parse_command(line);
    match extract_redirections(&tokens) {
        Ok((command, redirection)) => route(command, redirection),
        Err(_) => Action::Report(
            String::from_str("Error: missing output file after redirection operator"),
        ),
    }
}

/// How an external program ended, as far as the interpreter learns it.
#[derive(Clone, Copy, Debug, PartialEq, Eq, Structural)]
pub enum ProcessOutcome {
    /// It ran and exited with this code.
    Exited(i32),
    /// It ran and was ended by a signal, with no exit code.
    Signaled,
    /// It could not be started.
    NotStarted,
}

/// The line to report once `program` has ended: nothing after a clean exit.
pub fn outcome_report(program: &String, outcome: ProcessOutcome) -> (r: Option<String>)
    ensures
        match outcome {
            ProcessOutcome::Exited(code) => if code == 0 {
                r is None
            } else {
                r matches Some(m) && m@ == "Command "@ + program@ + " exited with code "@
                    + decimal(code as int)
            },
            ProcessOutcome::Signaled => r matches Some(m) && m@ == "Command "@ + program@
                + " terminated by signal"@,
            ProcessOutcome::NotStarted => r matches Some(m) && m@ == program@
                + ": command not found"@,
        },
{
    match outcome {
        ProcessOutcome::Exited(code) => {
            if code == 0 {
                None
            } else {
                let m = String::from_str("Command ").concat(program.as_str()).concat(
                    " exited with code ",
                ).concat(decimal_text(code).as_str());
                Some(m)
            }
        },
        ProcessOutcome::Signaled => Some(
            String::from_str("Command ").concat(program.as_str()).concat(" terminated by signal"),
        ),
        ProcessOutcome::NotStarted => Some(program.clone().concat(": command not found")),
    }
}

/// The line that reports a redirection target that could not be opened.
pub fn open_failure(target: &String, detail: &String) -> (r: String)
    ensures
        r@ == "Error opening "@ + target@ + ": "@ + detail@,
{
    String::from_str("Error opening ").concat(target.as_str()).concat(": ").concat(detail.as_str())
}

} // verus!
