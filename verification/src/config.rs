//! What the bridge is configured with: the buttons and their actions, the
//! serial port, the display, and the rule that ties notifications to the
//! text they report.

use vstd::prelude::*;
use crate::message::{copy_lines, texts};

verus! {

/// A key of the configuration file.
#[derive(Clone, Copy, Debug, PartialEq, Eq, Structural)]
pub enum Key {
    Config,
    Port,
    Baudrate,
    Display,
    Connected,
    Lines,
    Columns,
    NotifTimeMs,
    Brightness,
    SendCompletedNotifs,
    Command,
    CommandText,
    LogMessage,
    ReportMessage,
}

/// Why a configuration was refused.
#[derive(Clone, Copy, Debug, PartialEq, Eq, Structural)]
pub enum ConfigError {
    /// The text is not a TOML document.
    Syntax,
    /// The text nests deeper than the reader takes.
    TooNested,
    /// A key that must be there is not.
    Missing(Key),
    /// A key holds a value of a kind that it cannot take.
    WrongType(Key),
    /// More commands than there are button numbers.
    TooManyCommands,
    /// Notifications are on, and the button of this number has no text to
    /// report.
    MissingReportLines(u8),
}

/// What one button does when it is pushed.
#[derive(Clone, Debug, PartialEq, Eq)]
pub struct Button {
    /// The button's number.
    pub id: u8,
    /// The shell command to run, if any.
    pub command: Option<String>,
    /// The line to log, if it is not the usual one.
    pub log_message: Option<String>,
    /// The lines to show on the device once the action is done.
    pub report_message: Option<Vec<String>>,
}

/// A `Button` as plain values.
pub struct ButtonView {
    pub id: u8,
    pub command: Option<Seq<char>>,
    pub log_message: Option<Seq<char>>,
    pub report_message: Option<Seq<Seq<char>>>,
}

/// The characters of a string that may be absent.
pub open spec fn optional_text(text: Option<String>) -> Option<Seq<char>> {
    match text {
        Some(s) => Some(s@),
        None => None,
    }
}

/// The characters of lines that may be absent.
pub open spec fn optional_texts(lines: Option<Vec<String>>) -> Option<Seq<Seq<char>>> {
    match lines {
        Some(l) => Some(texts(l@)),
        None => None,
    }
}

impl View for Button {
    type V = ButtonView;

    open spec fn view(&self) -> ButtonView {
        ButtonView {
            id: self.id,
            command: optional_text(self.command),
            log_message: optional_text(self.log_message),
            report_message: optional_texts(self.report_message),
        }
    }
}

impl ButtonView {
    /// The button has text to report: at least one line.
    pub open spec fn reports(self) -> bool {
        self.report_message matches Some(lines) && lines.len() > 0
    }
}

/// The device's display.
#[derive(Clone, Copy, Debug, PartialEq, Eq, Structural)]
pub struct Display {
    pub connected: bool,
    pub lines: u32,
    pub columns: u32,
    /// How long a notification stays, in milliseconds.
    pub notif_time_ms: u32,
    pub brightness: u32,
}

/// The settings that are not buttons.
#[derive(Clone, Debug, PartialEq, Eq)]
pub struct Config {
    /// The path of the serial device.
    pub port: String,
    pub baudrate: u32,
    /// Whether a finished action is reported on the device's display.
    pub send_completed_notifs: bool,
    pub display: Display,
}

/// A `Config` as plain values.
pub struct ConfigView {
    pub port: Seq<char>,
    pub baudrate: u32,
    pub send_completed_notifs: bool,
    pub display: Display,
}

impl View for Config {
    type V = ConfigView;

    open spec fn view(&self) -> ConfigView {
        ConfigView {
            port: self.port@,
            baudrate: self.baudrate,
            send_completed_notifs: self.send_completed_notifs,
            display: self.display,
        }
    }
}

/// Each button as plain values.
pub open spec fn button_views(buttons: Seq<Button>) -> Seq<ButtonView> {
    buttons.map_values(|b: Button| b@)
}

/// The place of the first button from `from` on that has no text to report;
/// the number of buttons where all have.
pub open spec fn first_silent(buttons: Seq<ButtonView>, from: int) -> int
    decreases buttons.len() - from,
{
    if from < 0 || from >= buttons.len() {
        buttons.len() as int
    } else if !buttons[from].reports() {
        from
    } else {
        first_silent(buttons, from + 1)
    }
}

/// The rule of a configuration: with notifications on, every button has text
/// to report. The error names the first button that has none.
pub open spec fn check_reports(buttons: Seq<ButtonView>, notify: bool) -> Result<(), ConfigError> {
    if notify && first_silent(buttons, 0) < buttons.len() {
        Err(ConfigError::MissingReportLines(buttons[first_silent(buttons, 0)].id))
    } else {
        Ok(())
    }
}

/// From `from` on, every button has text to report exactly if none is the
/// first silent one.
pub proof fn lemma_first_silent(buttons: Seq<ButtonView>, from: int)
    requires
        0 <= from <= buttons.len(),
    ensures
        from <= first_silent(buttons, from) <= buttons.len(),
        forall|i: int| from <= i < first_silent(buttons, from) ==> buttons[i].reports(),
        first_silent(buttons, from) < buttons.len() ==> !buttons[first_silent(
            buttons,
            from,
        )].reports(),
    decreases buttons.len() - from,
{
    if from < buttons.len() && buttons[from].reports() {
        lemma_first_silent(buttons, from + 1);
    }
}

/// A configuration that keeps the rule.
#[derive(Debug, PartialEq, Eq)]
pub struct ParsedToml {
    buttons: Vec<Button>,
    config: Config,
}

/// A `ParsedToml` as plain values.
pub struct ParsedTomlView {
    pub buttons: Seq<ButtonView>,
    pub config: ConfigView,
}

impl ParsedTomlView {
    /// With notifications on, every button has text to report.
    pub open spec fn wf(self) -> bool {
        self.config.send_completed_notifs ==> forall|i: int|
            0 <= i < self.buttons.len() ==> (#[trigger] self.buttons[i]).reports()
    }
}

impl View for ParsedToml {
    type V = ParsedTomlView;

    closed spec fn view(&self) -> ParsedTomlView {
        ParsedTomlView { buttons: button_views(self.buttons@), config: self.config@ }
    }
}

impl ParsedToml {
    #[verifier::type_invariant]
    spec fn keeps_rule(self) -> bool {
        self@.wf()
    }

    /// Puts buttons and settings together, if they keep the rule: with
    /// notifications on, a button without text to report is refused.
    /// Two buttons may share a number.
    pub fn new(buttons: Vec<Button>, config: Config) -> (r: Result<ParsedToml, ConfigError>)
        ensures
            match r {
                Ok(parsed) => check_reports(
                    button_views(buttons@),
                    config.send_completed_notifs,
                ) is Ok && parsed@ == (ParsedTomlView {
                    buttons: button_views(buttons@),
                    config: config@,
                }) && parsed@.wf(),
                Err(e) => check_reports(button_views(buttons@), config.send_completed_notifs)
                    == Err::<(), ConfigError>(e),
            },
            config.send_completed_notifs && (exists|i: int|
                0 <= i < buttons.len() && !(#[trigger] buttons[i])@.reports()) ==> r is Err,
    {
        let ghost views = button_views(buttons@);
        if config.send_completed_notifs {
            let mut i: usize = 0;
            while i < buttons.len()
                invariant
                    i <= buttons.len(),
                    config.send_completed_notifs,
                    views == button_views(buttons@),
                    first_silent(views, 0) == first_silent(views, i as int),
                    forall|j: int| 0 <= j < i ==> (#[trigger] views[j]).reports(),
                decreases buttons.len() - i,
            {
                let reports = match &buttons[i].report_message {
                    Some(lines) => lines.len() > 0,
                    None => false,
                };
                assert(views[i as int] == buttons[i as int]@);
                assert(reports == views[i as int].reports());
                if !reports {
                    return Err(ConfigError::MissingReportLines(buttons[i].id));
                }
                i = i + 1;
            }
            proof {
                assert forall|j: int| 0 <= j < buttons.len() implies (#[trigger] buttons[j])@.reports() by {
                    assert(views[j].reports());
                }
            }
        } else {
            proof {
                lemma_first_silent(views, 0);
            }
        }
        Ok(ParsedToml { buttons, config })
    }

    /// The buttons, in the order of the configuration.
    pub fn buttons(&self) -> (buttons: &Vec<Button>)
        ensures
            button_views(buttons@) == self@.buttons,
            self@.wf(),
    {
        proof {
            use_type_invariant(self);
        }
        &self.buttons
    }

    /// The settings.
    pub fn config(&self) -> (config: &Config)
        ensures
            config@ == self@.config,
            self@.wf(),
    {
        proof {
            use_type_invariant(self);
        }
        &self.config
    }
}

/// One entry of the command list, as the file has it.
#[derive(Clone, Debug, PartialEq, Eq)]
pub struct RawCommand {
    pub command: Option<String>,
    pub log_message: Option<String>,
    pub report_message: Option<Vec<String>>,
}

/// A `RawCommand` as plain values.
pub struct RawCommandView {
    pub command: Option<Seq<char>>,
    pub log_message: Option<Seq<char>>,
    pub report_message: Option<Seq<Seq<char>>>,
}

impl View for RawCommand {
    type V = RawCommandView;

    open spec fn view(&self) -> RawCommandView {
        RawCommandView {
            command: optional_text(self.command),
            log_message: optional_text(self.log_message),
            report_message: optional_texts(self.report_message),
        }
    }
}

/// The display's settings, as the file has them. A setting is `None` where
/// the file holds a value of another kind under its key.
#[derive(Clone, Copy, Debug, PartialEq, Eq, Structural)]
pub struct RawDisplay {
    pub connected: Option<bool>,
    pub lines: Option<i64>,
    pub columns: Option<i64>,
    pub notif_time_ms: Option<i64>,
    pub brightness: Option<i64>,
}

/// What a configuration file says, before defaults and checks. A number or
/// a flag is `None` where the file holds a value of another kind under its
/// key.
#[derive(Clone, Debug, PartialEq, Eq)]
pub struct RawSettings {
    pub port: String,
    pub baudrate: Option<i64>,
    pub send_completed_notifs: Option<bool>,
    pub display: RawDisplay,
    pub commands: Vec<RawCommand>,
}

/// A `RawSettings` as plain values.
pub struct RawSettingsView {
    pub port: Seq<char>,
    pub baudrate: Option<i64>,
    pub send_completed_notifs: Option<bool>,
    pub display: RawDisplay,
    pub commands: Seq<RawCommandView>,
}

/// Each command as plain values.
pub open spec fn command_views(commands: Seq<RawCommand>) -> Seq<RawCommandView> {
    commands.map_values(|c: RawCommand| c@)
}

impl View for RawSettings {
    type V = RawSettingsView;

    open spec fn view(&self) -> RawSettingsView {
        RawSettingsView {
            port: self.port@,
            baudrate: self.baudrate,
            send_completed_notifs: self.send_completed_notifs,
            display: self.display,
            commands: command_views(self.commands@),
        }
    }
}

/// The baud rate where the file gives none that is a number.
pub const DEFAULT_BAUDRATE: i64 = 115200;

/// The time a notification stays where the file gives none that is a number.
pub const DEFAULT_NOTIF_TIME_MS: i64 = 500;

/// The brightness where the file gives none that is a number.
pub const DEFAULT_BRIGHTNESS: i64 = 255;

/// The most commands a file may list: one for each button number.
pub const MAX_COMMANDS: usize = 256;

/// The low 32 bits of a number, as an unsigned number.
pub open spec fn wrap_u32(v: i64) -> u32 {
    (v as int % 0x1_0000_0000) as u32
}

/// A number setting: the file's number, or `default` where it has none, cut
/// to 32 bits.
pub open spec fn number_or(setting: Option<i64>, default: i64) -> u32 {
    match setting {
        Some(v) => wrap_u32(v),
        None => wrap_u32(default),
    }
}

/// A flag setting: the file's flag, or `false` where it has none.
pub open spec fn flag_or_false(setting: Option<bool>) -> bool {
    match setting {
        Some(b) => b,
        None => false,
    }
}

/// The display's settings with the defaults filled in: no lines, no
/// columns, not connected.
pub open spec fn display_of(raw: RawDisplay) -> Display {
    Display {
        connected: flag_or_false(raw.connected),
        lines: number_or(raw.lines, 0),
        columns: number_or(raw.columns, 0),
        notif_time_ms: number_or(raw.notif_time_ms, DEFAULT_NOTIF_TIME_MS),
        brightness: number_or(raw.brightness, DEFAULT_BRIGHTNESS),
    }
}

/// The settings with the defaults filled in: notifications off.
pub open spec fn config_of(raw: RawSettingsView) -> ConfigView {
    ConfigView {
        port: raw.port,
        baudrate: number_or(raw.baudrate, DEFAULT_BAUDRATE),
        send_completed_notifs: flag_or_false(raw.send_completed_notifs),
        display: display_of(raw.display),
    }
}

/// The button that the command at place `place` makes.
pub open spec fn button_at(command: RawCommandView, place: int) -> ButtonView {
    ButtonView {
        id: place as u8,
        command: command.command,
        log_message: command.log_message,
        report_message: command.report_message,
    }
}

/// The buttons that the commands make: each has the number of its place.
pub open spec fn numbered(commands: Seq<RawCommandView>) -> Seq<ButtonView> {
    Seq::new(commands.len(), |i: int| button_at(commands[i], i))
}

/// The configuration that a file's settings come to. More commands than
/// button numbers are refused; so is, with notifications on, a command
/// without lines to report.
pub open spec fn assembled(raw: RawSettingsView) -> Result<ParsedTomlView, ConfigError> {
    if raw.commands.len() > MAX_COMMANDS {
        Err(ConfigError::TooManyCommands)
    } else {
        match check_reports(numbered(raw.commands), config_of(raw).send_completed_notifs) {
            Err(e) => Err(e),
            Ok(_) => Ok(ParsedTomlView { buttons: numbered(raw.commands), config: config_of(raw) }),
        }
    }
}

/// With notifications off, settings of at most `MAX_COMMANDS` commands
/// always come to a configuration, whether or not a command has lines to
/// report.
pub proof fn lemma_assembled_without_notifications(raw: RawSettingsView)
    requires
        raw.send_completed_notifs != Some(true),
        raw.commands.len() <= MAX_COMMANDS,
    ensures
        assembled(raw) == Ok::<ParsedTomlView, ConfigError>(
            ParsedTomlView { buttons: numbered(raw.commands), config: config_of(raw) },
        ),
{
}

/// An assembled configuration has one button for each command, in the
/// order of the commands, with the command's texts as they stand.
pub proof fn lemma_assembled_keeps_commands(raw: RawSettingsView, i: int)
    requires
        assembled(raw) is Ok,
        0 <= i < raw.commands.len(),
    ensures
        assembled(raw)->Ok_0.buttons.len() == raw.commands.len(),
        assembled(raw)->Ok_0.buttons[i] == (ButtonView {
            id: i as u8,
            command: raw.commands[i].command,
            log_message: raw.commands[i].log_message,
            report_message: raw.commands[i].report_message,
        }),
        assembled(raw)->Ok_0.buttons[i].id == i,
{
}

/// No two buttons of an assembled configuration share a number.
pub proof fn lemma_assembled_ids_differ(raw: RawSettingsView)
    ensures
        assembled(raw) matches Ok(parsed) ==> parsed.buttons.len() == raw.commands.len()
            && forall|i: int, j: int|
            0 <= i < j < parsed.buttons.len() ==> (#[trigger] parsed.buttons[i]).id != (
            #[trigger] parsed.buttons[j]).id,
{
}

/// Settings with notifications on and a command without lines to report
/// come to no configuration.
pub proof fn lemma_silent_command_refused(raw: RawSettingsView, i: int)
    requires
        raw.send_completed_notifs == Some(true),
        0 <= i < raw.commands.len(),
        raw.commands[i].report_message is None,
    ensures
        assembled(raw) is Err,
{
    if raw.commands.len() <= MAX_COMMANDS {
        lemma_first_silent(numbered(raw.commands), 0);
        assert(!numbered(raw.commands)[i].reports());
    }
}

/// The low 32 bits of `v`.
pub fn low_32_bits(v: i64) -> (low: u32)
    ensures
        low == wrap_u32(v),
{
    match v.checked_rem_euclid(0x1_0000_0000) {
        Some(rest) => rest as u32,
        None => 0,
    }
}

fn number_setting(setting: Option<i64>, default: i64) -> (number: u32)
    ensures
        number == number_or(setting, default),
{
    match setting {
        Some(v) => low_32_bits(v),
        None => low_32_bits(default),
    }
}

fn flag_setting(setting: Option<bool>) -> (flag: bool)
    ensures
        flag == flag_or_false(setting),
{
    match setting {
        Some(b) => b,
        None => false,
    }
}

fn copy_text(text: &Option<String>) -> (copy: Option<String>)
    ensures
        optional_text(copy) == optional_text(*text),
{
    match text {
        Some(s) => Some(s.clone()),
        None => None,
    }
}

fn copy_optional_lines(lines: &Option<Vec<String>>) -> (copy: Option<Vec<String>>)
    ensures
        optional_texts(copy) == optional_texts(*lines),
{
    match lines {
        Some(l) => Some(copy_lines(l)),
        None => None,
    }
}

/// The configuration that a file's settings come to.
///
/// Defaults stand in for numbers and flags that the file does not give,
/// numbers are cut to 32 bits, and each command becomes the button of its
/// place. More commands than `MAX_COMMANDS` are refused. With notifications
/// on, a command without lines to report is refused.
pub fn assemble(raw: &RawSettings) -> (r: Result<ParsedToml, ConfigError>)
    ensures
        match r {
            Ok(parsed) => assembled(raw@) == Ok::<ParsedTomlView, ConfigError>(parsed@),
            Err(e) => assembled(raw@) == Err::<ParsedTomlView, ConfigError>(e),
        },
        raw.send_completed_notifs == Some(true) && (exists|i: int|
            0 <= i < raw.commands.len() && (#[trigger] raw.commands[i]).report_message is None)
            ==> r is Err,
{
    proof {
        if raw.send_completed_notifs == Some(true) && (exists|i: int|
            0 <= i < raw.commands.len() && (#[trigger] raw.commands[i]).report_message is None) {
            let i = choose|i: int|
                0 <= i < raw.commands.len() && (#[trigger] raw.commands[i]).report_message is None;
            assert(raw@.commands[i] == raw.commands[i]@);
            lemma_silent_command_refused(raw@, i);
        }
    }
    if raw.commands.len() > MAX_COMMANDS {
        return Err(ConfigError::TooManyCommands);
    }
    let config = Config {
        port: raw.port.clone(),
        baudrate: number_setting(raw.baudrate, DEFAULT_BAUDRATE),
        send_completed_notifs: flag_setting(raw.send_completed_notifs),
        display: Display {
            connected: flag_setting(raw.display.connected),
            lines: number_setting(raw.display.lines, 0),
            columns: number_setting(raw.display.columns, 0),
            notif_time_ms: number_setting(raw.display.notif_time_ms, DEFAULT_NOTIF_TIME_MS),
            brightness: number_setting(raw.display.brightness, DEFAULT_BRIGHTNESS),
        },
    };
    let ghost commands = raw@.commands;
    let mut buttons: Vec<Button> = Vec::new();
    let mut i: usize = 0;
    while i < raw.commands.len()
        invariant
            i <= raw.commands.len() <= MAX_COMMANDS,
            commands == raw@.commands,
            buttons.len() == i,
            forall|j: int| 0 <= j < i ==> (#[trigger] buttons[j])@ == button_at(commands[j], j),
        decreases raw.commands.len() - i,
    {
        let command = &raw.commands[i];
        assert(commands[i as int] == command@);
        buttons.push(
            Button {
                id: i as u8,
                command: copy_text(&command.command),
                log_message: copy_text(&command.log_message),
                report_message: copy_optional_lines(&command.report_message),
            },
        );
        i = i + 1;
    }
    assert(button_views(buttons@) =~= numbered(commands));
    ParsedToml::new(buttons, config)
}

} // verus!
