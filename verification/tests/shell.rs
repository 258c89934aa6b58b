use management_app::journal::{Level, LogLine};
use management_app::shell::{
    execute_command, executed_line, shell_invocation, Invocation, Outcome, TargetFamily,
};

fn line(level: Level, text: &str) -> LogLine {
    LogLine::new(level, text.to_string())
}

#[test]
fn unix_runs_commands_through_sh() {
    assert_eq!(
        shell_invocation(TargetFamily::Unix, "echo hi"),
        Invocation { program: "sh".to_string(), flag: "-c".to_string(), command: "echo hi".to_string() }
    );
}

#[test]
fn windows_runs_commands_through_cmd() {
    assert_eq!(
        shell_invocation(TargetFamily::Windows, "dir"),
        Invocation { program: "cmd".to_string(), flag: "/C".to_string(), command: "dir".to_string() }
    );
}

#[test]
fn a_command_that_succeeded_leaves_one_line() {
    let outcome = Outcome::Finished {
        success: true,
        status: "exit status: 0".to_string(),
        stderr: "ignored".to_string(),
    };
    assert_eq!(
        execute_command("echo hi", &outcome),
        vec![line(Level::Info, "Executed `echo hi` which returned `exit status: 0`")]
    );
}

#[test]
fn a_command_that_failed_leaves_its_error_stream_and_status() {
    let outcome = Outcome::Finished {
        success: false,
        status: "exit status: 2".to_string(),
        stderr: "ls: no such file".to_string(),
    };
    assert_eq!(
        execute_command("ls /nowhere", &outcome),
        vec![
            line(Level::Error, "Something went wrong executing your command."),
            line(Level::Error, "ls: no such file"),
            line(Level::Info, "Executed `ls /nowhere` which returned `exit status: 2`"),
        ]
    );
}

#[test]
fn a_command_that_could_not_start_leaves_the_reason() {
    let outcome = Outcome::NotStarted { reason: "No such file or directory".to_string() };
    assert_eq!(
        execute_command("echo hi", &outcome),
        vec![
            line(Level::Error, "Something went wrong executing your command. Tried `echo hi`"),
            line(Level::Error, "No such file or directory"),
        ]
    );
}

#[test]
fn executed_line_names_command_and_status() {
    assert_eq!(executed_line("a", "b"), line(Level::Info, "Executed `a` which returned `b`"));
}
