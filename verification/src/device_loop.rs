//! The poll cycle of the serial link, as a state machine.
//!
//! One round asks the link how many bytes wait, reads and decodes them if
//! there are any, takes at most one display request off the outbound queue
//! and writes it, sleeps, and begins again. The machine decides; the
//! program around it does what the commands say and hands back what
//! happened. Only a link that is gone for good stops the cycle.

use vstd::prelude::*;
use crate::codec::{
    decode_button, decode_button_event, encode_display_message, encode_display_result,
    EncodeError,
};
use crate::journal::{Level, LogLine, LogLineView};
use crate::message::{ButtonPushed, DisplayText, DisplayTextView};
use crate::text::{decimal, with_number};
use crate::varint::DecodeError;

verus! {

/// How long the cycle sleeps between rounds, in milliseconds.
pub const POLL_INTERVAL_MS: u32 = 100;

/// How long a read may wait for the link, in milliseconds.
pub const READ_TIMEOUT_MS: u32 = 1000;

/// How the link failed.
#[derive(Clone, Copy, Debug, PartialEq, Eq, Structural)]
pub enum Fault {
    /// This once: a timeout, or an error that the next round may not meet.
    Transient,
    /// For good: the device is no longer there.
    Disconnected,
}

/// What went wrong on the link, as the system names it.
#[derive(Clone, Copy, Debug, PartialEq, Eq, Structural)]
pub enum LinkError {
    /// The device is no longer there.
    NoDevice,
    /// The device's path leads nowhere.
    NotFound,
    /// The link is not connected.
    NotConnected,
    /// The other end is closed.
    BrokenPipe,
    /// The device may no longer be used.
    PermissionDenied,
    /// Anything else: a timeout, an interrupted call, bad data.
    Other,
}

/// Which failures end the cycle: those that say that the device is gone or
/// out of reach. Every other failure may pass.
pub open spec fn fault_of(error: LinkError) -> Fault {
    match error {
        LinkError::Other => Fault::Transient,
        _ => Fault::Disconnected,
    }
}

/// What the cycle waits for.
#[derive(Clone, Copy, Debug, PartialEq, Eq, Structural)]
pub enum Phase {
    /// For the number of bytes that wait on the link.
    Polling,
    /// For the bytes themselves.
    Reading,
    /// For the next request of the outbound queue, or word that it is empty.
    Draining,
    /// For the end of a write.
    Writing,
    /// For the end of the sleep.
    Sleeping,
    /// For nothing: the cycle is over.
    Stopped,
}

/// What happened.
#[derive(Clone, Debug, PartialEq, Eq)]
pub enum Event {
    /// So many bytes wait on the link.
    Available(u32),
    /// These bytes were read.
    Received(Vec<u8>),
    /// The outbound queue holds nothing.
    QueueEmpty,
    /// This request came off the outbound queue.
    Dequeued(DisplayText),
    /// The bytes were written.
    Written,
    /// The sleep is over.
    Woke,
    /// The link failed at what it was asked to do.
    Failed(Fault),
}

/// An `Event` as plain values.
pub enum EventView {
    Available(u32),
    Received(Seq<u8>),
    QueueEmpty,
    Dequeued(DisplayTextView),
    Written,
    Woke,
    Failed(Fault),
}

impl View for Event {
    type V = EventView;

    open spec fn view(&self) -> EventView {
        match self {
            Event::Available(n) => EventView::Available(*n),
            Event::Received(bytes) => EventView::Received(bytes@),
            Event::QueueEmpty => EventView::QueueEmpty,
            Event::Dequeued(message) => EventView::Dequeued(message@),
            Event::Written => EventView::Written,
            Event::Woke => EventView::Woke,
            Event::Failed(fault) => EventView::Failed(*fault),
        }
    }
}

/// What the program is to do. The last command of a transition asks for
/// something and its answer is the next event; those before it ask for
/// nothing back.
#[derive(Clone, Debug, PartialEq, Eq)]
pub enum Command {
    /// Write a line to the log.
    Log(LogLine),
    /// Pass a button report on to the dispatcher.
    Forward(ButtonPushed),
    /// Drop what the link has buffered and not yet handed out.
    DiscardInput,
    /// Ask the link how many bytes wait. It never blocks.
    Poll,
    /// Read so many bytes from the link.
    Read(u32),
    /// Take one request off the outbound queue without waiting.
    TakeOutbound,
    /// Write these bytes to the link, once.
    Write(Vec<u8>),
    /// Sleep for so many milliseconds.
    Sleep(u32),
    /// Leave the cycle and report that the link is lost.
    Stop,
}

/// A `Command` as plain values.
pub enum CommandView {
    Log(LogLineView),
    Forward(ButtonPushed),
    DiscardInput,
    Poll,
    Read(u32),
    TakeOutbound,
    Write(Seq<u8>),
    Sleep(u32),
    Stop,
}

impl View for Command {
    type V = CommandView;

    open spec fn view(&self) -> CommandView {
        match self {
            Command::Log(line) => CommandView::Log(line@),
            Command::Forward(event) => CommandView::Forward(*event),
            Command::DiscardInput => CommandView::DiscardInput,
            Command::Poll => CommandView::Poll,
            Command::Read(n) => CommandView::Read(*n),
            Command::TakeOutbound => CommandView::TakeOutbound,
            Command::Write(bytes) => CommandView::Write(bytes@),
            Command::Sleep(ms) => CommandView::Sleep(*ms),
            Command::Stop => CommandView::Stop,
        }
    }
}

/// Each command as plain values.
pub open spec fn command_views(commands: Seq<Command>) -> Seq<CommandView> {
    commands.map_values(|c: Command| c@)
}

/// Where the cycle goes, and what is to be done on the way.
#[derive(Clone, Debug, PartialEq, Eq)]
pub struct Transition {
    pub next: Phase,
    pub commands: Vec<Command>,
}

/// A `Transition` as plain values.
pub struct TransitionView {
    pub next: Phase,
    pub commands: Seq<CommandView>,
}

impl View for Transition {
    type V = TransitionView;

    open spec fn view(&self) -> TransitionView {
        TransitionView { next: self.next, commands: command_views(self.commands@) }
    }
}

/// The line that says how many bytes wait.
pub open spec fn heard_text(count: u32) -> Seq<char> {
    "Heard "@ + decimal(count as nat) + " bytes"@
}

/// The line that names the button of a report.
pub open spec fn recognized_text(number: u32) -> Seq<char> {
    "Button recognized as "@ + decimal(number as nat)
}

/// The line for bytes that are no button report.
pub open spec fn undecodable_text(error: DecodeError) -> Seq<char> {
    match error {
        DecodeError::Incomplete =>
            "Unable to read a button report from the bytes: the frame is incomplete. Is this the wrong device?"@,
        DecodeError::Malformed =>
            "Unable to read a button report from the bytes: the frame is malformed. Is this the wrong device?"@,
    }
}

/// The line for a request that cannot be encoded.
pub open spec fn unencodable_text(error: EncodeError) -> Seq<char> {
    match error {
        EncodeError::TooManyLines => "Unable to encode message: too many lines"@,
        EncodeError::BrightnessOutOfRange => "Unable to encode message: brightness out of range"@,
        EncodeError::LineTooLong => "Unable to encode message: line too long"@,
    }
}

/// The line for a write that was done.
pub open spec fn sent_text() -> Seq<char> {
    "Sent message to microcontroller"@
}

/// The line for a write that failed.
pub open spec fn unsent_text() -> Seq<char> {
    "Unable to send message to microcontroller!"@
}

/// The line for a failure of the link that may pass.
pub open spec fn fault_text() -> Seq<char> {
    "The serial link failed; trying again next round"@
}

/// The line for a link that is gone for good.
pub open spec fn gone_text() -> Seq<char> {
    "The serial link is gone"@
}

/// The command that logs `text` at `level`.
pub open spec fn log(level: Level, text: Seq<char>) -> CommandView {
    CommandView::Log(LogLineView { level, text })
}

/// The first transition: into `Polling`, with the first poll.
pub open spec fn first_transition() -> TransitionView {
    TransitionView { next: Phase::Polling, commands: seq![CommandView::Poll] }
}

/// What bytes off the link set off: a report is passed on; bytes that are
/// none are logged and what the link still holds is dropped. Either way
/// the round goes on with the outbound queue.
pub open spec fn after_read(bytes: Seq<u8>) -> TransitionView {
    TransitionView {
        next: Phase::Draining,
        commands: match decode_button(bytes) {
            Ok(event) => seq![
                log(Level::Info, recognized_text(event.number)),
                CommandView::Forward(event),
                CommandView::TakeOutbound,
            ],
            Err(error) => seq![
                log(Level::Warn, undecodable_text(error)),
                CommandView::DiscardInput,
                CommandView::TakeOutbound,
            ],
        },
    }
}

/// What a request off the queue sets off: it is written, or, where it
/// cannot be encoded, logged and dropped.
pub open spec fn after_dequeue(message: DisplayTextView) -> TransitionView {
    match encode_display_result(message) {
        Ok(bytes) => TransitionView {
            next: Phase::Writing,
            commands: seq![CommandView::Write(bytes)],
        },
        Err(error) => TransitionView {
            next: Phase::Sleeping,
            commands: seq![
                log(Level::Warn, unencodable_text(error)),
                CommandView::Sleep(POLL_INTERVAL_MS),
            ],
        },
    }
}

/// What a failure of the link sets off in a phase that waits for the link:
/// a link that is gone stops the cycle; any other failure is logged, and
/// the round goes on where it would have gone.
pub open spec fn after_fault(phase: Phase, fault: Fault) -> TransitionView {
    match fault {
        Fault::Disconnected => TransitionView {
            next: Phase::Stopped,
            commands: seq![log(Level::Error, gone_text()), CommandView::Stop],
        },
        Fault::Transient => if phase == Phase::Writing {
            TransitionView {
                next: Phase::Sleeping,
                commands: seq![
                    log(Level::Warn, unsent_text()),
                    CommandView::Sleep(POLL_INTERVAL_MS),
                ],
            }
        } else {
            TransitionView {
                next: Phase::Draining,
                commands: seq![log(Level::Warn, fault_text()), CommandView::TakeOutbound],
            }
        },
    }
}

/// Whether the phase waits for the link.
pub open spec fn on_link(phase: Phase) -> bool {
    phase == Phase::Polling || phase == Phase::Reading || phase == Phase::Writing
}

/// The transition that `event` sets off in `phase`; none where the phase
/// does not wait for such an event.
pub open spec fn transition_of(phase: Phase, event: EventView) -> Option<TransitionView> {
    match (phase, event) {
        (Phase::Polling, EventView::Available(count)) => if count == 0 {
            Some(TransitionView { next: Phase::Draining, commands: seq![CommandView::TakeOutbound] })
        } else {
            Some(
                TransitionView {
                    next: Phase::Reading,
                    commands: seq![log(Level::Info, heard_text(count)), CommandView::Read(count)],
                },
            )
        },
        (Phase::Reading, EventView::Received(bytes)) => Some(after_read(bytes)),
        (Phase::Draining, EventView::QueueEmpty) => Some(
            TransitionView {
                next: Phase::Sleeping,
                commands: seq![CommandView::Sleep(POLL_INTERVAL_MS)],
            },
        ),
        (Phase::Draining, EventView::Dequeued(message)) => Some(after_dequeue(message)),
        (Phase::Writing, EventView::Written) => Some(
            TransitionView {
                next: Phase::Sleeping,
                commands: seq![
                    log(Level::Trace, sent_text()),
                    CommandView::Sleep(POLL_INTERVAL_MS),
                ],
            },
        ),
        (Phase::Sleeping, EventView::Woke) => Some(
            TransitionView { next: Phase::Polling, commands: seq![CommandView::Poll] },
        ),
        (_, EventView::Failed(fault)) => if on_link(phase) {
            Some(after_fault(phase, fault))
        } else {
            None
        },
        _ => None,
    }
}

/// The command whose answer the phase waits for.
pub open spec fn asks(phase: Phase, command: CommandView) -> bool {
    match phase {
        Phase::Polling => command is Poll,
        Phase::Reading => command is Read,
        Phase::Draining => command is TakeOutbound,
        Phase::Writing => command is Write,
        Phase::Sleeping => command is Sleep,
        Phase::Stopped => command is Stop,
    }
}

/// A command that asks for nothing back.
pub open spec fn is_note(command: CommandView) -> bool {
    command is Log || command is Forward || command is DiscardInput
}

/// Every transition ends with the one command that its phase waits for,
/// and all commands before it ask for nothing back.
pub proof fn lemma_transition_asks(phase: Phase, event: EventView)
    ensures
        transition_of(phase, event) matches Some(t) ==> t.commands.len() >= 1 && asks(
            t.next,
            t.commands.last(),
        ) && forall|i: int| 0 <= i < t.commands.len() - 1 ==> is_note(#[trigger] t.commands[i]),
{
}

/// The cycle stops exactly where the link is gone for good.
pub proof fn lemma_stops_only_when_gone(phase: Phase, event: EventView)
    ensures
        transition_of(phase, event) matches Some(t) ==> (t.next == Phase::Stopped <==> event
            == EventView::Failed(Fault::Disconnected)),
        phase == Phase::Stopped ==> transition_of(phase, event) is None,
{
}

/// No command of the transition passes a report on.
pub open spec fn forwards_nothing(t: TransitionView) -> bool {
    forall|i: int| 0 <= i < t.commands.len() ==> !((#[trigger] t.commands[i]) is Forward)
}

/// Bytes that are no button report are logged in one line, the input is
/// dropped, no report is passed on to the dispatcher, and the round goes
/// on with the outbound queue.
pub proof fn lemma_undecodable_goes_on(bytes: Seq<u8>)
    requires
        decode_button(bytes) is Err,
    ensures
        transition_of(Phase::Reading, EventView::Received(bytes)) == Some(
            TransitionView {
                next: Phase::Draining,
                commands: seq![
                    log(Level::Warn, undecodable_text(decode_button(bytes)->Err_0)),
                    CommandView::DiscardInput,
                    CommandView::TakeOutbound,
                ],
            },
        ),
        forwards_nothing(transition_of(Phase::Reading, EventView::Received(bytes))->Some_0),
{
}

/// A report is passed on only where bytes were read that spell it.
pub proof fn lemma_forwards_only_what_was_read(phase: Phase, event: EventView, i: int)
    requires
        transition_of(phase, event) matches Some(t) && 0 <= i < t.commands.len()
            && t.commands[i] is Forward,
    ensures
        phase == Phase::Reading,
        event matches EventView::Received(bytes) && decode_button(bytes) == Ok::<
            ButtonPushed,
            DecodeError,
        >(transition_of(phase, event)->Some_0.commands[i]->Forward_0),
{
}

/// Which kind of failure an error of the link is.
pub fn classify(error: LinkError) -> (fault: Fault)
    ensures
        fault == fault_of(error),
{
    match error {
        LinkError::Other => Fault::Transient,
        _ => Fault::Disconnected,
    }
}

fn note(level: Level, text: &str) -> (command: Command)
    ensures
        command@ == log(level, text@),
{
    Command::Log(LogLine { level, text: String::from_str(text) })
}

/// The line for bytes that are no button report.
pub fn undecodable_line(error: DecodeError) -> (command: Command)
    ensures
        command@ == log(Level::Warn, undecodable_text(error)),
{
    match error {
        DecodeError::Incomplete => note(
            Level::Warn,
            "Unable to read a button report from the bytes: the frame is incomplete. Is this the wrong device?",
        ),
        DecodeError::Malformed => note(
            Level::Warn,
            "Unable to read a button report from the bytes: the frame is malformed. Is this the wrong device?",
        ),
    }
}

/// The line for a request that cannot be encoded.
pub fn unencodable_line(error: EncodeError) -> (command: Command)
    ensures
        command@ == log(Level::Warn, unencodable_text(error)),
{
    match error {
        EncodeError::TooManyLines => note(Level::Warn, "Unable to encode message: too many lines"),
        EncodeError::BrightnessOutOfRange => note(
            Level::Warn,
            "Unable to encode message: brightness out of range",
        ),
        EncodeError::LineTooLong => note(Level::Warn, "Unable to encode message: line too long"),
    }
}

/// The transition that begins the cycle.
pub fn start() -> (first: Transition)
    ensures
        first@ == first_transition(),
{
    let mut commands: Vec<Command> = Vec::new();
    commands.push(Command::Poll);
    assert(command_views(commands@) =~= seq![CommandView::Poll]);
    Transition { next: Phase::Polling, commands }
}

fn read_step(bytes: &Vec<u8>) -> (t: Transition)
    ensures
        t@ == after_read(bytes@),
{
    let mut commands: Vec<Command> = Vec::new();
    match decode_button_event(bytes.as_slice()) {
        Ok(event) => {
            proof {
                reveal_strlit("");
            }
            let text = with_number("Button recognized as ", event.number as u64, "");
            assert(text@ =~= recognized_text(event.number));
            commands.push(Command::Log(LogLine { level: Level::Info, text }));
            commands.push(Command::Forward(event));
        },
        Err(error) => {
            commands.push(undecodable_line(error));
            commands.push(Command::DiscardInput);
        },
    }
    commands.push(Command::TakeOutbound);
    assert(command_views(commands@) =~= after_read(bytes@).commands);
    Transition { next: Phase::Draining, commands }
}

fn dequeue_step(message: &DisplayText) -> (t: Transition)
    ensures
        t@ == after_dequeue(message@),
{
    let mut commands: Vec<Command> = Vec::new();
    match encode_display_message(message) {
        Ok(bytes) => {
            commands.push(Command::Write(bytes));
            assert(command_views(commands@) =~= after_dequeue(message@).commands);
            Transition { next: Phase::Writing, commands }
        },
        Err(error) => {
            commands.push(unencodable_line(error));
            commands.push(Command::Sleep(POLL_INTERVAL_MS));
            assert(command_views(commands@) =~= after_dequeue(message@).commands);
            Transition { next: Phase::Sleeping, commands }
        },
    }
}

fn fault_step(phase: Phase, fault: Fault) -> (t: Transition)
    ensures
        t@ == after_fault(phase, fault),
{
    let mut commands: Vec<Command> = Vec::new();
    match fault {
        Fault::Disconnected => {
            commands.push(note(Level::Error, "The serial link is gone"));
            commands.push(Command::Stop);
            assert(command_views(commands@) =~= after_fault(phase, fault).commands);
            Transition { next: Phase::Stopped, commands }
        },
        Fault::Transient => {
            match phase {
                Phase::Writing => {
                    commands.push(
                        note(Level::Warn, "Unable to send message to microcontroller!"),
                    );
                    commands.push(Command::Sleep(POLL_INTERVAL_MS));
                    assert(command_views(commands@) =~= after_fault(phase, fault).commands);
                    Transition { next: Phase::Sleeping, commands }
                },
                _ => {
                    commands.push(
                        note(Level::Warn, "The serial link failed; trying again next round"),
                    );
                    commands.push(Command::TakeOutbound);
                    assert(command_views(commands@) =~= after_fault(phase, fault).commands);
                    Transition { next: Phase::Draining, commands }
                },
            }
        },
    }
}

/// The transition that `event` sets off in `phase`.
///
/// An event that the phase does not wait for sets nothing off. Every other
/// event gives the next phase and the commands on the way to it, the last
/// of which is the one whose answer the next phase waits for. The next
/// phase is `Stopped` exactly where the link is gone for good.
pub fn step(phase: Phase, event: &Event) -> (r: Option<Transition>)
    ensures
        match r {
            Some(t) => transition_of(phase, event@) == Some(t@),
            None => transition_of(phase, event@) is None,
        },
        r matches Some(t) ==> t.commands.len() >= 1 && asks(t.next, t.commands@.last()@),
        r matches Some(t) ==> (t.next == Phase::Stopped <==> event@ == EventView::Failed(
            Fault::Disconnected,
        )),
        phase == Phase::Reading && (event@ matches EventView::Received(bytes) && decode_button(
            bytes,
        ) is Err) ==> (r matches Some(t) && t.next == Phase::Draining && forwards_nothing(t@)
            && t@.commands.len() == 3 && t@.commands[0] is Log && t@.commands[1]
            is DiscardInput),
{
    proof {
        lemma_transition_asks(phase, event@);
        lemma_stops_only_when_gone(phase, event@);
        if phase == Phase::Reading {
            if let EventView::Received(bytes) = event@ {
                if decode_button(bytes) is Err {
                    lemma_undecodable_goes_on(bytes);
                }
            }
        }
    }
    let mut commands: Vec<Command> = Vec::new();
    let r = match (phase, event) {
        (Phase::Polling, Event::Available(count)) => {
            if *count == 0 {
                commands.push(Command::TakeOutbound);
                assert(command_views(commands@) =~= seq![CommandView::TakeOutbound]);
                Some(Transition { next: Phase::Draining, commands })
            } else {
                let text = with_number("Heard ", *count as u64, " bytes");
                commands.push(Command::Log(LogLine { level: Level::Info, text }));
                commands.push(Command::Read(*count));
                assert(command_views(commands@) =~= seq![
                    log(Level::Info, heard_text(*count)),
                    CommandView::Read(*count),
                ]);
                Some(Transition { next: Phase::Reading, commands })
            }
        },
        (Phase::Reading, Event::Received(bytes)) => Some(read_step(bytes)),
        (Phase::Draining, Event::QueueEmpty) => {
            commands.push(Command::Sleep(POLL_INTERVAL_MS));
            assert(command_views(commands@) =~= seq![CommandView::Sleep(POLL_INTERVAL_MS)]);
            Some(Transition { next: Phase::Sleeping, commands })
        },
        (Phase::Draining, Event::Dequeued(message)) => Some(dequeue_step(message)),
        (Phase::Writing, Event::Written) => {
            commands.push(note(Level::Trace, "Sent message to microcontroller"));
            commands.push(Command::Sleep(POLL_INTERVAL_MS));
            assert(command_views(commands@) =~= seq![
                log(Level::Trace, sent_text()),
                CommandView::Sleep(POLL_INTERVAL_MS),
            ]);
            Some(Transition { next: Phase::Sleeping, commands })
        },
        (Phase::Sleeping, Event::Woke) => {
            commands.push(Command::Poll);
            assert(command_views(commands@) =~= seq![CommandView::Poll]);
            Some(Transition { next: Phase::Polling, commands })
        },
        (Phase::Polling, Event::Failed(fault)) => Some(fault_step(phase, *fault)),
        (Phase::Reading, Event::Failed(fault)) => Some(fault_step(phase, *fault)),
        (Phase::Writing, Event::Failed(fault)) => Some(fault_step(phase, *fault)),
        _ => None,
    };
    r
}

} // verus!
