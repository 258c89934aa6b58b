//! Reading the configuration file.
//!
//! The file is TOML and the `toml` crate parses it. What this module adds is
//! the schema: which keys must be there, what stands in for a value of the
//! wrong kind, how the buttons get their numbers, and the rule on
//! notifications.

use vstd::prelude::*;
use vstd::utf8::encode_utf8;
use crate::config::{
    assemble, assembled, command_views, optional_text, optional_texts, ConfigError, Key,
    ParsedToml, ParsedTomlView, RawCommand, RawCommandView, RawDisplay, RawSettings,
    RawSettingsView,
};
use crate::message::{lemma_texts_push, texts};
use crate::nesting::{deepest_nesting, nesting_peak, MAX_NESTING};

verus! {

#[verifier::external_type_specification]
#[verifier::external_body]
pub struct ExValue(toml::Value);

#[verifier::external_type_specification]
#[verifier::external_body]
pub struct ExSyntaxError(toml::de::Error);

/// A TOML value as plain values.
pub enum Node {
    Text(Seq<char>),
    Integer(i64),
    Boolean(bool),
    List(Seq<Node>),
    Table(Map<Seq<char>, Node>),
    /// A float or a date: nothing that the configuration reads.
    Other,
}

/// What a TOML value holds.
pub uninterp spec fn node_of(value: toml::Value) -> Node;

/// The document that a text is parsed to, if it is TOML.
pub uninterp spec fn parsed(text: Seq<char>) -> Option<Node>;

/// What each value of a list holds.
pub open spec fn nodes(values: Seq<toml::Value>) -> Seq<Node> {
    values.map_values(|v: toml::Value| node_of(v))
}

/// The value under `key`, where `node` is a table that has the key.
pub open spec fn child(node: Node, key: Seq<char>) -> Option<Node> {
    match node {
        Node::Table(entries) => if entries.contains_key(key) {
            Some(entries[key])
        } else {
            None
        },
        _ => None,
    }
}

/// `str::parse::<toml::Value>` of the `toml` crate: the document that the
/// text spells, or the parser's error where it spells none. The same text
/// always gives the same answer.
///
/// Texts that nest deeply are left out: the parser calls itself once for
/// each level and has no limit of its own, so on those it can run out of
/// stack. A text whose measure is at most `MAX_NESTING` keeps it within
/// 257 levels; a thread's default stack of two megabytes bears more than
/// twice as many.
#[verifier::external_body]
fn parse_document(text: &str) -> (r: Result<toml::Value, toml::de::Error>)
    requires
        nesting_peak(encode_utf8(text@)) <= MAX_NESTING,
    ensures
        match r {
            Ok(value) => parsed(text@) == Some(node_of(value)),
            Err(_) => parsed(text@) is None,
        },
{
    text.parse::<toml::Value>()
}

/// `toml::Value::get` with a string key: the value under that key where
/// `value` is a table that has it, nothing otherwise.
#[verifier::external_body]
fn get<'a>(value: &'a toml::Value, key: &str) -> (found: Option<&'a toml::Value>)
    ensures
        match found {
            Some(inner) => child(node_of(*value), key@) == Some(node_of(*inner)),
            None => child(node_of(*value), key@) is None,
        },
{
    value.get(key)
}

/// `toml::Value::as_integer`: the number where `value` is an integer.
#[verifier::external_body]
fn as_integer(value: &toml::Value) -> (number: Option<i64>)
    ensures
        match number {
            Some(i) => node_of(*value) == Node::Integer(i),
            None => !(node_of(*value) is Integer),
        },
{
    value.as_integer()
}

/// `toml::Value::as_bool`: the flag where `value` is a boolean.
#[verifier::external_body]
fn as_bool(value: &toml::Value) -> (flag: Option<bool>)
    ensures
        match flag {
            Some(b) => node_of(*value) == Node::Boolean(b),
            None => !(node_of(*value) is Boolean),
        },
{
    value.as_bool()
}

/// `toml::Value::as_str`: the text where `value` is a string.
#[verifier::external_body]
fn as_str<'a>(value: &'a toml::Value) -> (text: Option<&'a str>)
    ensures
        match text {
            Some(s) => node_of(*value) == Node::Text(s@),
            None => !(node_of(*value) is Text),
        },
{
    value.as_str()
}

/// `toml::Value::as_array`: the items, in order, where `value` is an array.
#[verifier::external_body]
fn as_array<'a>(value: &'a toml::Value) -> (items: Option<&'a Vec<toml::Value>>)
    ensures
        match items {
            Some(list) => node_of(*value) == Node::List(nodes(list@)),
            None => !(node_of(*value) is List),
        },
{
    value.as_array()
}

/// A number setting of `table`: the key must be there; a value that is no
/// integer counts as none.
pub open spec fn number_setting(table: Node, name: Seq<char>, key: Key) -> Result<
    Option<i64>,
    ConfigError,
> {
    match child(table, name) {
        None => Err(ConfigError::Missing(key)),
        Some(Node::Integer(i)) => Ok(Some(i)),
        Some(_) => Ok(None),
    }
}

/// A flag setting of `table`: the key must be there; a value that is no
/// boolean counts as none.
pub open spec fn flag_setting(table: Node, name: Seq<char>, key: Key) -> Result<
    Option<bool>,
    ConfigError,
> {
    match child(table, name) {
        None => Err(ConfigError::Missing(key)),
        Some(Node::Boolean(b)) => Ok(Some(b)),
        Some(_) => Ok(None),
    }
}

/// A text setting of `table`: the key must be there and hold a string.
pub open spec fn text_setting(table: Node, name: Seq<char>, key: Key) -> Result<
    Seq<char>,
    ConfigError,
> {
    match child(table, name) {
        None => Err(ConfigError::Missing(key)),
        Some(Node::Text(t)) => Ok(t),
        Some(_) => Err(ConfigError::WrongType(key)),
    }
}

/// A text that may be left out, but must be a string where it is there.
pub open spec fn optional_setting(table: Node, name: Seq<char>, key: Key) -> Result<
    Option<Seq<char>>,
    ConfigError,
> {
    match child(table, name) {
        None => Ok(None),
        Some(Node::Text(t)) => Ok(Some(t)),
        Some(_) => Err(ConfigError::WrongType(key)),
    }
}

/// The texts of a list whose items are all strings.
pub open spec fn texts_of(items: Seq<Node>, key: Key) -> Result<Seq<Seq<char>>, ConfigError>
    decreases items.len(),
{
    if items.len() == 0 {
        Ok(Seq::empty())
    } else {
        match texts_of(items.drop_last(), key) {
            Err(e) => Err(e),
            Ok(front) => match items.last() {
                Node::Text(t) => Ok(front.push(t)),
                _ => Err(ConfigError::WrongType(key)),
            },
        }
    }
}

/// Lines that may be left out, but must be a list of strings where they are
/// there.
pub open spec fn optional_lines(table: Node, name: Seq<char>, key: Key) -> Result<
    Option<Seq<Seq<char>>>,
    ConfigError,
> {
    match child(table, name) {
        None => Ok(None),
        Some(Node::List(items)) => match texts_of(items, key) {
            Err(e) => Err(e),
            Ok(lines) => Ok(Some(lines)),
        },
        Some(_) => Err(ConfigError::WrongType(key)),
    }
}

/// The display's settings, read from the table `config`.
pub open spec fn raw_display_of(config: Node) -> Result<RawDisplay, ConfigError> {
    match child(config, "display"@) {
        None => Err(ConfigError::Missing(Key::Display)),
        Some(display) => match flag_setting(display, "connected"@, Key::Connected) {
            Err(e) => Err(e),
            Ok(connected) => match number_setting(display, "lines"@, Key::Lines) {
                Err(e) => Err(e),
                Ok(lines) => match number_setting(display, "columns"@, Key::Columns) {
                    Err(e) => Err(e),
                    Ok(columns) => match number_setting(
                        display,
                        "notif_time_ms"@,
                        Key::NotifTimeMs,
                    ) {
                        Err(e) => Err(e),
                        Ok(notif_time_ms) => match number_setting(
                            display,
                            "brightness"@,
                            Key::Brightness,
                        ) {
                            Err(e) => Err(e),
                            Ok(brightness) => Ok(
                                RawDisplay { connected, lines, columns, notif_time_ms, brightness },
                            ),
                        },
                    },
                },
            },
        },
    }
}

/// The command that one entry of the command list describes.
pub open spec fn raw_command_of(entry: Node) -> Result<RawCommandView, ConfigError> {
    match optional_setting(entry, "command"@, Key::CommandText) {
        Err(e) => Err(e),
        Ok(command) => match optional_setting(entry, "log_message"@, Key::LogMessage) {
            Err(e) => Err(e),
            Ok(log_message) => match optional_lines(
                entry,
                "report_message"@,
                Key::ReportMessage,
            ) {
                Err(e) => Err(e),
                Ok(report_message) => Ok(RawCommandView { command, log_message, report_message }),
            },
        },
    }
}

/// The commands of the command list, in order.
pub open spec fn raw_commands_of(entries: Seq<Node>) -> Result<Seq<RawCommandView>, ConfigError>
    decreases entries.len(),
{
    if entries.len() == 0 {
        Ok(Seq::empty())
    } else {
        match raw_commands_of(entries.drop_last()) {
            Err(e) => Err(e),
            Ok(front) => match raw_command_of(entries.last()) {
                Err(e) => Err(e),
                Ok(command) => Ok(front.push(command)),
            },
        }
    }
}

/// The command list of a document: the key must be there and hold a list.
pub open spec fn command_list_of(doc: Node) -> Result<Seq<RawCommandView>, ConfigError> {
    match child(doc, "command"@) {
        None => Err(ConfigError::Missing(Key::Command)),
        Some(Node::List(entries)) => raw_commands_of(entries),
        Some(_) => Err(ConfigError::WrongType(Key::Command)),
    }
}

/// What a document says: port, baud rate, display, notifications and then
/// the commands, in this order; the first fault is the error.
pub open spec fn raw_of(doc: Node) -> Result<RawSettingsView, ConfigError> {
    match child(doc, "config"@) {
        None => Err(ConfigError::Missing(Key::Config)),
        Some(config) => match text_setting(config, "port"@, Key::Port) {
            Err(e) => Err(e),
            Ok(port) => match number_setting(config, "baudrate"@, Key::Baudrate) {
                Err(e) => Err(e),
                Ok(baudrate) => match raw_display_of(config) {
                    Err(e) => Err(e),
                    Ok(display) => match flag_setting(
                        config,
                        "send_completed_notifs"@,
                        Key::SendCompletedNotifs,
                    ) {
                        Err(e) => Err(e),
                        Ok(send_completed_notifs) => match command_list_of(doc) {
                            Err(e) => Err(e),
                            Ok(commands) => Ok(
                                RawSettingsView {
                                    port,
                                    baudrate,
                                    send_completed_notifs,
                                    display,
                                    commands,
                                },
                            ),
                        },
                    },
                },
            },
        },
    }
}

/// The configuration that a document describes: what it says, assembled.
pub open spec fn settings_of(doc: Node) -> Result<ParsedTomlView, ConfigError> {
    match raw_of(doc) {
        Err(e) => Err(e),
        Ok(raw) => assembled(raw),
    }
}

/// The configuration that a text describes. A text is refused for its
/// nesting alone, never for its length.
pub open spec fn settings_of_text(text: Seq<char>) -> Result<ParsedTomlView, ConfigError> {
    if nesting_peak(encode_utf8(text)) > MAX_NESTING {
        Err(ConfigError::TooNested)
    } else {
        match parsed(text) {
            None => Err(ConfigError::Syntax),
            Some(doc) => settings_of(doc),
        }
    }
}

/// Reads a number setting of `table`.
fn read_number(table: &toml::Value, name: &str, key: Key) -> (r: Result<Option<i64>, ConfigError>)
    ensures
        r == number_setting(node_of(*table), name@, key),
{
    match get(table, name) {
        None => Err(ConfigError::Missing(key)),
        Some(value) => Ok(as_integer(value)),
    }
}

/// Reads a flag setting of `table`.
fn read_flag(table: &toml::Value, name: &str, key: Key) -> (r: Result<Option<bool>, ConfigError>)
    ensures
        r == flag_setting(node_of(*table), name@, key),
{
    match get(table, name) {
        None => Err(ConfigError::Missing(key)),
        Some(value) => Ok(as_bool(value)),
    }
}

/// Reads a text setting of `table`.
fn read_text(table: &toml::Value, name: &str, key: Key) -> (r: Result<String, ConfigError>)
    ensures
        match r {
            Ok(text) => text_setting(node_of(*table), name@, key) == Ok::<Seq<char>, ConfigError>(
                text@,
            ),
            Err(e) => text_setting(node_of(*table), name@, key) == Err::<Seq<char>, ConfigError>(
                e,
            ),
        },
{
    match get(table, name) {
        None => Err(ConfigError::Missing(key)),
        Some(value) => match as_str(value) {
            Some(text) => Ok(String::from_str(text)),
            None => Err(ConfigError::WrongType(key)),
        },
    }
}

/// Reads a text of `table` that may be left out.
fn read_optional(table: &toml::Value, name: &str, key: Key) -> (r: Result<
    Option<String>,
    ConfigError,
>)
    ensures
        match r {
            Ok(text) => optional_setting(node_of(*table), name@, key) == Ok::<
                Option<Seq<char>>,
                ConfigError,
            >(optional_text(text)),
            Err(e) => optional_setting(node_of(*table), name@, key) == Err::<
                Option<Seq<char>>,
                ConfigError,
            >(e),
        },
{
    match get(table, name) {
        None => Ok(None),
        Some(value) => match as_str(value) {
            Some(text) => Ok(Some(String::from_str(text))),
            None => Err(ConfigError::WrongType(key)),
        },
    }
}

/// Reads the strings of a list.
fn read_texts(items: &Vec<toml::Value>, key: Key) -> (r: Result<Vec<String>, ConfigError>)
    ensures
        match r {
            Ok(lines) => texts_of(nodes(items@), key) == Ok::<Seq<Seq<char>>, ConfigError>(
                texts(lines@),
            ),
            Err(e) => texts_of(nodes(items@), key) == Err::<Seq<Seq<char>>, ConfigError>(e),
        },
{
    let ghost all = nodes(items@);
    let mut lines: Vec<String> = Vec::new();
    let mut i: usize = 0;
    proof {
        assert(texts(lines@) =~= Seq::<Seq<char>>::empty());
    }
    while i < items.len()
        invariant
            i <= items.len(),
            all == nodes(items@),
            texts_of(all.take(i as int), key) == Ok::<Seq<Seq<char>>, ConfigError>(texts(lines@)),
        decreases items.len() - i,
    {
        proof {
            assert(all.take(i + 1).drop_last() =~= all.take(i as int));
            assert(all.take(i + 1).last() == node_of(items@[i as int]));
        }
        match as_str(&items[i]) {
            None => {
                proof {
                    lemma_texts_of_fault(all, i + 1, key);
                }
                return Err(ConfigError::WrongType(key));
            },
            Some(text) => {
                let line = String::from_str(text);
                proof {
                    lemma_texts_push(lines@, line);
                }
                lines.push(line);
            },
        }
        i = i + 1;
    }
    proof {
        assert(all.take(i as int) =~= all);
    }
    Ok(lines)
}

/// A fault among the first items is the fault of the whole list.
proof fn lemma_texts_of_fault(items: Seq<Node>, upto: int, key: Key)
    requires
        0 <= upto <= items.len(),
        texts_of(items.take(upto), key) is Err,
    ensures
        texts_of(items, key) == texts_of(items.take(upto), key),
    decreases items.len() - upto,
{
    if upto < items.len() {
        assert(items.take(upto + 1).drop_last() =~= items.take(upto));
        lemma_texts_of_fault(items, upto + 1, key);
    } else {
        assert(items.take(upto) =~= items);
    }
}

/// Reads lines of `table` that may be left out.
fn read_lines(table: &toml::Value, name: &str, key: Key) -> (r: Result<
    Option<Vec<String>>,
    ConfigError,
>)
    ensures
        match r {
            Ok(lines) => optional_lines(node_of(*table), name@, key) == Ok::<
                Option<Seq<Seq<char>>>,
                ConfigError,
            >(optional_texts(lines)),
            Err(e) => optional_lines(node_of(*table), name@, key) == Err::<
                Option<Seq<Seq<char>>>,
                ConfigError,
            >(e),
        },
{
    match get(table, name) {
        None => Ok(None),
        Some(value) => match as_array(value) {
            None => Err(ConfigError::WrongType(key)),
            Some(items) => match read_texts(items, key) {
                Err(e) => Err(e),
                Ok(lines) => Ok(Some(lines)),
            },
        },
    }
}

/// Reads the display's settings from the table `config`.
fn read_display(config: &toml::Value) -> (r: Result<RawDisplay, ConfigError>)
    ensures
        r == raw_display_of(node_of(*config)),
{
    let display = match get(config, "display") {
        None => {
            return Err(ConfigError::Missing(Key::Display));
        },
        Some(display) => display,
    };
    let connected = match read_flag(display, "connected", Key::Connected) {
        Err(e) => {
            return Err(e);
        },
        Ok(connected) => connected,
    };
    let lines = match read_number(display, "lines", Key::Lines) {
        Err(e) => {
            return Err(e);
        },
        Ok(lines) => lines,
    };
    let columns = match read_number(display, "columns", Key::Columns) {
        Err(e) => {
            return Err(e);
        },
        Ok(columns) => columns,
    };
    let notif_time_ms = match read_number(display, "notif_time_ms", Key::NotifTimeMs) {
        Err(e) => {
            return Err(e);
        },
        Ok(notif_time_ms) => notif_time_ms,
    };
    let brightness = match read_number(display, "brightness", Key::Brightness) {
        Err(e) => {
            return Err(e);
        },
        Ok(brightness) => brightness,
    };
    Ok(RawDisplay { connected, lines, columns, notif_time_ms, brightness })
}

/// Reads the command that one entry of the command list describes.
fn read_command(entry: &toml::Value) -> (r: Result<RawCommand, ConfigError>)
    ensures
        match r {
            Ok(command) => raw_command_of(node_of(*entry)) == Ok::<RawCommandView, ConfigError>(
                command@,
            ),
            Err(e) => raw_command_of(node_of(*entry)) == Err::<RawCommandView, ConfigError>(e),
        },
{
    let command = match read_optional(entry, "command", Key::CommandText) {
        Err(e) => {
            return Err(e);
        },
        Ok(command) => command,
    };
    let log_message = match read_optional(entry, "log_message", Key::LogMessage) {
        Err(e) => {
            return Err(e);
        },
        Ok(log_message) => log_message,
    };
    let report_message = match read_lines(entry, "report_message", Key::ReportMessage) {
        Err(e) => {
            return Err(e);
        },
        Ok(report_message) => report_message,
    };
    Ok(RawCommand { command, log_message, report_message })
}

/// A fault among the first entries is the fault of the whole list.
proof fn lemma_raw_commands_of_fault(entries: Seq<Node>, upto: int)
    requires
        0 <= upto <= entries.len(),
        raw_commands_of(entries.take(upto)) is Err,
    ensures
        raw_commands_of(entries) == raw_commands_of(entries.take(upto)),
    decreases entries.len() - upto,
{
    if upto < entries.len() {
        assert(entries.take(upto + 1).drop_last() =~= entries.take(upto));
        lemma_raw_commands_of_fault(entries, upto + 1);
    } else {
        assert(entries.take(upto) =~= entries);
    }
}

/// Reads the commands of the command list.
fn read_commands(entries: &Vec<toml::Value>) -> (r: Result<Vec<RawCommand>, ConfigError>)
    ensures
        match r {
            Ok(commands) => raw_commands_of(nodes(entries@)) == Ok::<
                Seq<RawCommandView>,
                ConfigError,
            >(command_views(commands@)),
            Err(e) => raw_commands_of(nodes(entries@)) == Err::<Seq<RawCommandView>, ConfigError>(
                e,
            ),
        },
{
    let ghost all = nodes(entries@);
    let mut commands: Vec<RawCommand> = Vec::new();
    let mut i: usize = 0;
    proof {
        assert(command_views(commands@) =~= Seq::<RawCommandView>::empty());
    }
    while i < entries.len()
        invariant
            i <= entries.len(),
            all == nodes(entries@),
            raw_commands_of(all.take(i as int)) == Ok::<Seq<RawCommandView>, ConfigError>(
                command_views(commands@),
            ),
        decreases entries.len() - i,
    {
        proof {
            assert(all.take(i + 1).drop_last() =~= all.take(i as int));
            assert(all.take(i + 1).last() == node_of(entries@[i as int]));
        }
        match read_command(&entries[i]) {
            Err(e) => {
                proof {
                    lemma_raw_commands_of_fault(all, i + 1);
                }
                return Err(e);
            },
            Ok(command) => {
                proof {
                    assert(command_views(commands@.push(command)) =~= command_views(
                        commands@,
                    ).push(command@));
                }
                commands.push(command);
            },
        }
        i = i + 1;
    }
    proof {
        assert(all.take(i as int) =~= all);
    }
    Ok(commands)
}

/// Reads the command list of a document.
fn read_command_list(doc: &toml::Value) -> (r: Result<Vec<RawCommand>, ConfigError>)
    ensures
        match r {
            Ok(commands) => command_list_of(node_of(*doc)) == Ok::<
                Seq<RawCommandView>,
                ConfigError,
            >(command_views(commands@)),
            Err(e) => command_list_of(node_of(*doc)) == Err::<Seq<RawCommandView>, ConfigError>(e),
        },
{
    match get(doc, "command") {
        None => Err(ConfigError::Missing(Key::Command)),
        Some(command) => match as_array(command) {
            None => Err(ConfigError::WrongType(Key::Command)),
            Some(entries) => read_commands(entries),
        },
    }
}

/// What a parsed document says, before defaults and checks.
///
/// The first fault is the error: a key that is missing, or a value of a
/// kind that its key cannot take.
pub fn read_raw(doc: &toml::Value) -> (r: Result<RawSettings, ConfigError>)
    ensures
        match r {
            Ok(raw) => raw_of(node_of(*doc)) == Ok::<RawSettingsView, ConfigError>(raw@),
            Err(e) => raw_of(node_of(*doc)) == Err::<RawSettingsView, ConfigError>(e),
        },
{
    let config = match get(doc, "config") {
        None => {
            return Err(ConfigError::Missing(Key::Config));
        },
        Some(config) => config,
    };
    let port = match read_text(config, "port", Key::Port) {
        Err(e) => {
            return Err(e);
        },
        Ok(port) => port,
    };
    let baudrate = match read_number(config, "baudrate", Key::Baudrate) {
        Err(e) => {
            return Err(e);
        },
        Ok(baudrate) => baudrate,
    };
    let display = match read_display(config) {
        Err(e) => {
            return Err(e);
        },
        Ok(display) => display,
    };
    let send_completed_notifs = match read_flag(
        config,
        "send_completed_notifs",
        Key::SendCompletedNotifs,
    ) {
        Err(e) => {
            return Err(e);
        },
        Ok(flag) => flag,
    };
    let commands = match read_command_list(doc) {
        Err(e) => {
            return Err(e);
        },
        Ok(commands) => commands,
    };
    Ok(RawSettings { port, baudrate, send_completed_notifs, display, commands })
}

/// The configuration that a parsed document describes: what it says,
/// assembled.
pub fn read_document(doc: &toml::Value) -> (r: Result<ParsedToml, ConfigError>)
    ensures
        match r {
            Ok(parsed) => settings_of(node_of(*doc)) == Ok::<ParsedTomlView, ConfigError>(parsed@),
            Err(e) => settings_of(node_of(*doc)) == Err::<ParsedTomlView, ConfigError>(e),
        },
{
    match read_raw(doc) {
        Err(e) => Err(e),
        Ok(raw) => assemble(&raw),
    }
}

/// A text that nests no deeper than `MAX_NESTING` and is TOML describes
/// what its document describes.
pub proof fn lemma_shallow_text_is_read(text: Seq<char>)
    requires
        nesting_peak(encode_utf8(text)) <= MAX_NESTING,
        parsed(text) is Some,
    ensures
        settings_of_text(text) == settings_of(parsed(text)->Some_0),
{
}

/// The configuration that a text describes.
///
/// A text that nests deeper than `MAX_NESTING` is `TooNested`, one that is
/// not TOML is `Syntax`; every other text is read as `read_document` reads
/// its document, however long it is.
pub fn read_toml(text: &str) -> (r: Result<ParsedToml, ConfigError>)
    ensures
        match r {
            Ok(parsed) => settings_of_text(text@) == Ok::<ParsedTomlView, ConfigError>(parsed@),
            Err(e) => settings_of_text(text@) == Err::<ParsedTomlView, ConfigError>(e),
        },
{
    if deepest_nesting(text).is_none() {
        return Err(ConfigError::TooNested);
    }
    match parse_document(text) {
        Err(_) => Err(ConfigError::Syntax),
        Ok(doc) => read_document(&doc),
    }
}

} // verus!
