//! Running a button's command: how the shell is called, and what is logged
//! of the way it ended. The call itself is made by the program around the
//! library, which hands back what came of it.

use vstd::prelude::*;
use crate::journal::{Level, LogLine, LogLineView};

verus! {

/// The kind of system the program runs on.
#[derive(Clone, Copy, Debug, PartialEq, Eq, Structural)]
pub enum TargetFamily {
    Unix,
    Windows,
}

/// A call of the shell: the program, and its two arguments.
#[derive(Clone, Debug, PartialEq, Eq)]
pub struct Invocation {
    pub program: String,
    pub flag: String,
    /// The command, exactly as the configuration has it.
    pub command: String,
}

/// An `Invocation` as plain values.
pub struct InvocationView {
    pub program: Seq<char>,
    pub flag: Seq<char>,
    pub command: Seq<char>,
}

impl View for Invocation {
    type V = InvocationView;

    open spec fn view(&self) -> InvocationView {
        InvocationView { program: self.program@, flag: self.flag@, command: self.command@ }
    }
}

/// How a command ended.
#[derive(Clone, Debug, PartialEq, Eq)]
pub enum Outcome {
    /// The command ran to its end.
    Finished {
        /// Whether it reported success.
        success: bool,
        /// Its exit status, as the system words it.
        status: String,
        /// What it wrote to its error stream.
        stderr: String,
    },
    /// The shell could not be started.
    NotStarted {
        /// Why, as the system words it.
        reason: String,
    },
}

/// An `Outcome` as plain values.
pub enum OutcomeView {
    Finished { success: bool, status: Seq<char>, stderr: Seq<char> },
    NotStarted { reason: Seq<char> },
}

impl View for Outcome {
    type V = OutcomeView;

    open spec fn view(&self) -> OutcomeView {
        match self {
            Outcome::Finished { success, status, stderr } => OutcomeView::Finished {
                success: *success,
                status: status@,
                stderr: stderr@,
            },
            Outcome::NotStarted { reason } => OutcomeView::NotStarted { reason: reason@ },
        }
    }
}

/// The call of the shell that runs `command`: `sh -c` on Unix, `cmd /C` on
/// Windows.
pub open spec fn invocation_of(family: TargetFamily, command: Seq<char>) -> InvocationView {
    match family {
        TargetFamily::Unix => InvocationView { program: "sh"@, flag: "-c"@, command },
        TargetFamily::Windows => InvocationView { program: "cmd"@, flag: "/C"@, command },
    }
}

/// The line that says how a command ended.
pub open spec fn executed_text(command: Seq<char>, status: Seq<char>) -> Seq<char> {
    "Executed `"@ + command + "` which returned `"@ + status + "`"@
}

/// The line that says that a command failed.
pub open spec fn failed_text() -> Seq<char> {
    "Something went wrong executing your command."@
}

/// The line that says that a command could not be started.
pub open spec fn not_started_text(command: Seq<char>) -> Seq<char> {
    "Something went wrong executing your command. Tried `"@ + command + "`"@
}

/// What is logged of a command. One that succeeded leaves one line with
/// its status; one that failed leaves two error lines, the second being its
/// error stream, and then the line with its status; one that could not be
/// started leaves two error lines, the second being the reason.
pub open spec fn report_of(command: Seq<char>, outcome: OutcomeView) -> Seq<LogLineView> {
    match outcome {
        OutcomeView::Finished { success, status, stderr } => if success {
            seq![LogLineView { level: Level::Info, text: executed_text(command, status) }]
        } else {
            seq![
                LogLineView { level: Level::Error, text: failed_text() },
                LogLineView { level: Level::Error, text: stderr },
                LogLineView { level: Level::Info, text: executed_text(command, status) },
            ]
        },
        OutcomeView::NotStarted { reason } => seq![
            LogLineView { level: Level::Error, text: not_started_text(command) },
            LogLineView { level: Level::Error, text: reason },
        ],
    }
}

/// Each line as plain values.
pub open spec fn line_views(lines: Seq<LogLine>) -> Seq<LogLineView> {
    lines.map_values(|l: LogLine| l@)
}

/// The call of the shell that runs `command`.
pub fn shell_invocation(family: TargetFamily, command: &str) -> (call: Invocation)
    ensures
        call@ == invocation_of(family, command@),
{
    match family {
        TargetFamily::Unix => Invocation {
            program: String::from_str("sh"),
            flag: String::from_str("-c"),
            command: String::from_str(command),
        },
        TargetFamily::Windows => Invocation {
            program: String::from_str("cmd"),
            flag: String::from_str("/C"),
            command: String::from_str(command),
        },
    }
}

/// The line that says how a command ended.
pub fn executed_line(command: &str, status: &str) -> (line: LogLine)
    ensures
        line@ == (LogLineView { level: Level::Info, text: executed_text(command@, status@) }),
{
    let text = String::from_str("Executed `").concat(command).concat(
        "` which returned `",
    ).concat(status).concat("`");
    LogLine { level: Level::Info, text }
}

/// What is logged of the command `command` that ended as `outcome` says.
/// No outcome stops the commands that follow.
pub fn execute_command(command: &str, outcome: &Outcome) -> (lines: Vec<LogLine>)
    ensures
        line_views(lines@) == report_of(command@, outcome@),
{
    let mut lines: Vec<LogLine> = Vec::new();
    match outcome {
        Outcome::Finished { success, status, stderr } => {
            if !*success {
                lines.push(
                    LogLine {
                        level: Level::Error,
                        text: String::from_str("Something went wrong executing your command."),
                    },
                );
                lines.push(LogLine { level: Level::Error, text: stderr.clone() });
            }
            lines.push(executed_line(command, status.as_str()));
        },
        Outcome::NotStarted { reason } => {
            let text = String::from_str(
                "Something went wrong executing your command. Tried `",
            ).concat(command).concat("`");
            lines.push(LogLine { level: Level::Error, text });
            lines.push(LogLine { level: Level::Error, text: reason.clone() });
        },
    }
    assert(line_views(lines@) =~= report_of(command@, outcome@));
    lines
}

} // verus!
