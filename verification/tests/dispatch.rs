use management_app::config::{Button, Config, Display, ParsedToml};
use management_app::dispatch::{dispatch, unmatched_line, Step, REPLY_BRIGHTNESS};
use management_app::journal::{Level, LogLine};
use management_app::message::{ButtonPushed, DisplayText};

fn settings(notify: bool, notif_time_ms: u32) -> Config {
    Config {
        port: "/dev/ttyACM0".to_string(),
        baudrate: 115200,
        send_completed_notifs: notify,
        display: Display { connected: true, lines: 2, columns: 16, notif_time_ms, brightness: 255 },
    }
}

fn action(id: u8, command: Option<&str>, log: Option<&str>, report: Option<&[&str]>) -> Button {
    Button {
        id,
        command: command.map(|c| c.to_string()),
        log_message: log.map(|l| l.to_string()),
        report_message: report.map(|lines| lines.iter().map(|l| l.to_string()).collect()),
    }
}

fn info(text: &str) -> Step {
    Step::Log(LogLine::new(Level::Info, text.to_string()))
}

fn run(command: &str) -> Step {
    Step::Run(command.to_string())
}

fn send(lines: &[&str], duration_ms: u32) -> Step {
    Step::Send(DisplayText::new(
        lines.iter().map(|l| l.to_string()).collect(),
        REPLY_BRIGHTNESS,
        duration_ms,
    ))
}

fn sends(steps: &[Step]) -> usize {
    steps.iter().filter(|s| matches!(s, Step::Send(_))).count()
}

fn runs(steps: &[Step]) -> usize {
    steps.iter().filter(|s| matches!(s, Step::Run(_))).count()
}

#[test]
fn one_match_runs_its_command_and_reports() {
    let parsed = ParsedToml::new(
        vec![action(2, Some("echo hi"), None, Some(&["Done"]))],
        settings(true, 500),
    )
    .unwrap();
    let steps = dispatch(&parsed, &ButtonPushed::new(2));
    assert_eq!(steps, vec![info("Button match for 2"), run("echo hi"), send(&["Done"], 500)]);
    match &steps[2] {
        Step::Send(message) => {
            assert_eq!(message.lines, vec!["Done".to_string()]);
            assert_eq!(message.duration_ms, 500);
            assert_eq!(message.brightness, 150);
        }
        other => panic!("expected a display request, got {:?}", other),
    }
}

#[test]
fn two_matches_both_run_and_both_report() {
    let parsed = ParsedToml::new(
        vec![
            action(5, Some("first"), None, Some(&["one"])),
            action(4, Some("other"), None, Some(&["skip"])),
            action(5, Some("second"), Some("again"), Some(&["two", "lines"])),
        ],
        settings(true, 250),
    )
    .unwrap();
    let steps = dispatch(&parsed, &ButtonPushed::new(5));
    assert_eq!(
        steps,
        vec![
            info("Button match for 5"),
            run("first"),
            send(&["one"], 250),
            info("again"),
            run("second"),
            send(&["two", "lines"], 250),
        ]
    );
    assert_eq!(runs(&steps), 2);
    assert_eq!(sends(&steps), 2);
}

#[test]
fn two_matches_without_notifications_send_nothing() {
    let parsed = ParsedToml::new(
        vec![action(5, Some("first"), None, None), action(5, Some("second"), None, Some(&["two"]))],
        settings(false, 250),
    )
    .unwrap();
    let steps = dispatch(&parsed, &ButtonPushed::new(5));
    assert_eq!(
        steps,
        vec![info("Button match for 5"), run("first"), info("Button match for 5"), run("second")]
    );
    assert_eq!(sends(&steps), 0);
}

#[test]
fn no_match_logs_an_error_and_sends_nothing() {
    let parsed = ParsedToml::new(
        vec![action(0, Some("a"), None, Some(&["x"])), action(1, Some("b"), None, Some(&["y"]))],
        settings(true, 500),
    )
    .unwrap();
    let steps = dispatch(&parsed, &ButtonPushed::new(9));
    assert_eq!(
        steps,
        vec![Step::Log(LogLine::new(
            Level::Error,
            "Unable to parse protobuf reply. ID 9 not found.".to_string()
        ))]
    );
    assert_eq!(sends(&steps), 0);
    assert_eq!(runs(&steps), 0);
}

#[test]
fn no_buttons_at_all_is_no_match() {
    let parsed = ParsedToml::new(vec![], settings(true, 500)).unwrap();
    let steps = dispatch(&parsed, &ButtonPushed::new(0));
    assert_eq!(steps, vec![Step::Log(unmatched_line(0))]);
}

#[test]
fn a_number_beyond_one_byte_matches_no_button() {
    let parsed =
        ParsedToml::new(vec![action(2, Some("echo hi"), None, Some(&["Done"]))], settings(true, 500))
            .unwrap();
    for number in [258u32, 256 + 2 + 256, u32::MAX] {
        let steps = dispatch(&parsed, &ButtonPushed::new(number));
        assert_eq!(steps, vec![Step::Log(unmatched_line(number))]);
    }
    assert_eq!(
        unmatched_line(4294967295).text,
        "Unable to parse protobuf reply. ID 4294967295 not found."
    );
}

#[test]
fn a_match_without_command_only_logs_and_reports() {
    let parsed =
        ParsedToml::new(vec![action(3, None, Some("three"), Some(&["ok"]))], settings(true, 100))
            .unwrap();
    let steps = dispatch(&parsed, &ButtonPushed::new(3));
    assert_eq!(steps, vec![info("three"), send(&["ok"], 100)]);
    assert_eq!(runs(&steps), 0);
}

#[test]
fn exactly_one_match_for_every_configured_number() {
    let buttons: Vec<Button> = (0..=255u8)
        .map(|id| Button {
            id,
            command: Some(format!("run {}", id)),
            log_message: None,
            report_message: Some(vec![format!("ran {}", id)]),
        })
        .collect();
    let parsed = ParsedToml::new(buttons, settings(true, 500)).unwrap();
    for number in 0..=255u32 {
        let steps = dispatch(&parsed, &ButtonPushed::new(number));
        assert_eq!(
            steps,
            vec![
                info(&format!("Button match for {}", number)),
                run(&format!("run {}", number)),
                Step::Send(DisplayText::new(vec![format!("ran {}", number)], 150, 500)),
            ]
        );
    }
}

#[test]
fn build_response_takes_the_report_lines() {
    let button = action(1, None, None, Some(&["a", "b"]));
    assert_eq!(
        button.build_response(1234),
        DisplayText::new(vec!["a".to_string(), "b".to_string()], 150, 1234)
    );
}

#[test]
fn match_line_is_the_own_line_or_the_usual_one() {
    assert_eq!(
        action(200, None, None, None).match_line(),
        LogLine::new(Level::Info, "Button match for 200".to_string())
    );
    assert_eq!(
        action(200, None, Some("custom"), None).match_line(),
        LogLine::new(Level::Info, "custom".to_string())
    );
}
