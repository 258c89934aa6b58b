//! The dispatcher: what a button report sets off.
//!
//! Every button of the configuration whose number is the reported one
//! reacts, in the order of the configuration: a line for the log, then its
//! shell command if it has one, then, with notifications on, a display
//! request made of its report lines. A report that no button answers leaves
//! one error line and nothing else.

use vstd::prelude::*;
use crate::config::{button_views, Button, ButtonView, ParsedToml, ParsedTomlView};
use crate::journal::{Level, LogLine, LogLineView};
use crate::message::{copy_lines, ButtonPushed, DisplayText, DisplayTextView};
use crate::text::{decimal, with_number};

verus! {

/// One thing for the program to do, in the order given.
#[derive(Clone, Debug, PartialEq, Eq)]
pub enum Step {
    /// Write a line to the log.
    Log(LogLine),
    /// Run a command through the shell, wait for it, and log how it ended.
    Run(String),
    /// Put a display request on the queue to the device.
    Send(DisplayText),
}

/// A `Step` as plain values.
pub enum StepView {
    Log(LogLineView),
    Run(Seq<char>),
    Send(DisplayTextView),
}

impl View for Step {
    type V = StepView;

    open spec fn view(&self) -> StepView {
        match self {
            Step::Log(line) => StepView::Log(line@),
            Step::Run(command) => StepView::Run(command@),
            Step::Send(message) => StepView::Send(message@),
        }
    }
}

/// Each step as plain values.
pub open spec fn step_views(steps: Seq<Step>) -> Seq<StepView> {
    steps.map_values(|s: Step| s@)
}

/// How bright a report is shown.
pub const REPLY_BRIGHTNESS: u32 = 150;

/// The display request that reports a button's action: its report lines,
/// shown for `notif_time_ms`.
pub open spec fn response(button: ButtonView, notif_time_ms: u32) -> DisplayTextView {
    DisplayTextView {
        lines: button.report_message->Some_0,
        brightness: REPLY_BRIGHTNESS,
        duration_ms: notif_time_ms,
    }
}

/// The line that a button logs when it answers: its own, or the usual one
/// with its number.
pub open spec fn match_text(button: ButtonView) -> Seq<char> {
    match button.log_message {
        Some(text) => text,
        None => "Button match for "@ + decimal(button.id as nat),
    }
}

/// The line that is logged where no button answers.
pub open spec fn unmatched_text(number: u32) -> Seq<char> {
    "Unable to parse protobuf reply. ID "@ + decimal(number as nat) + " not found."@
}

/// The command of a button as a step, if it has one.
pub open spec fn run_step(button: ButtonView) -> Seq<StepView> {
    match button.command {
        Some(command) => seq![StepView::Run(command)],
        None => Seq::empty(),
    }
}

/// The report of a button as a step, with notifications on.
pub open spec fn send_step(button: ButtonView, notify: bool, notif_time_ms: u32) -> Seq<
    StepView,
> {
    if notify {
        seq![StepView::Send(response(button, notif_time_ms))]
    } else {
        Seq::empty()
    }
}

/// What one answering button sets off.
pub open spec fn reaction(button: ButtonView, notify: bool, notif_time_ms: u32) -> Seq<StepView> {
    seq![StepView::Log(LogLineView { level: Level::Info, text: match_text(button) })] + run_step(
        button,
    ) + send_step(button, notify, notif_time_ms)
}

/// What the answering buttons set off, one after the other.
pub open spec fn reactions(
    buttons: Seq<ButtonView>,
    number: u32,
    notify: bool,
    notif_time_ms: u32,
) -> Seq<StepView>
    decreases buttons.len(),
{
    if buttons.len() == 0 {
        Seq::empty()
    } else {
        reactions(buttons.drop_last(), number, notify, notif_time_ms) + if buttons.last().id
            == number {
            reaction(buttons.last(), notify, notif_time_ms)
        } else {
            Seq::empty()
        }
    }
}

/// Some button has the number.
pub open spec fn any_match(buttons: Seq<ButtonView>, number: u32) -> bool {
    exists|i: int| 0 <= i < buttons.len() && (#[trigger] buttons[i]).id == number
}

/// The button at `k` has the number, and no other button has.
pub open spec fn only_match(buttons: Seq<ButtonView>, number: u32, k: int) -> bool {
    &&& 0 <= k < buttons.len()
    &&& buttons[k].id == number
    &&& forall|i: int| 0 <= i < buttons.len() && i != k ==> (#[trigger] buttons[i]).id != number
}

/// How many buttons have the number.
pub open spec fn count_matches(buttons: Seq<ButtonView>, number: u32) -> nat
    decreases buttons.len(),
{
    if buttons.len() == 0 {
        0
    } else {
        count_matches(buttons.drop_last(), number) + if buttons.last().id == number {
            1nat
        } else {
            0nat
        }
    }
}

/// What a button report sets off under a configuration.
pub open spec fn dispatch_steps(parsed: ParsedTomlView, event: ButtonPushed) -> Seq<StepView> {
    if any_match(parsed.buttons, event.number) {
        reactions(
            parsed.buttons,
            event.number,
            parsed.config.send_completed_notifs,
            parsed.config.display.notif_time_ms,
        )
    } else {
        seq![
            StepView::Log(
                LogLineView { level: Level::Error, text: unmatched_text(event.number) },
            ),
        ]
    }
}

/// The commands among the steps, in order.
pub open spec fn commands_run(steps: Seq<StepView>) -> Seq<Seq<char>>
    decreases steps.len(),
{
    if steps.len() == 0 {
        Seq::empty()
    } else {
        commands_run(steps.drop_last()) + match steps.last() {
            StepView::Run(command) => seq![command],
            _ => Seq::empty(),
        }
    }
}

/// The display requests among the steps, in order.
pub open spec fn messages_sent(steps: Seq<StepView>) -> Seq<DisplayTextView>
    decreases steps.len(),
{
    if steps.len() == 0 {
        Seq::empty()
    } else {
        messages_sent(steps.drop_last()) + match steps.last() {
            StepView::Send(message) => seq![message],
            _ => Seq::empty(),
        }
    }
}

/// The commands of steps put together are those of the parts, in order.
pub proof fn lemma_commands_run_add(a: Seq<StepView>, b: Seq<StepView>)
    ensures
        commands_run(a + b) == commands_run(a) + commands_run(b),
    decreases b.len(),
{
    if b.len() == 0 {
        assert(a + b =~= a);
        assert(commands_run(a) + commands_run(b) =~= commands_run(a));
    } else {
        assert((a + b).drop_last() =~= a + b.drop_last());
        lemma_commands_run_add(a, b.drop_last());
        assert(commands_run(a + b) =~= commands_run(a) + commands_run(b));
    }
}

/// The requests of steps put together are those of the parts, in order.
pub proof fn lemma_messages_sent_add(a: Seq<StepView>, b: Seq<StepView>)
    ensures
        messages_sent(a + b) == messages_sent(a) + messages_sent(b),
    decreases b.len(),
{
    if b.len() == 0 {
        assert(a + b =~= a);
        assert(messages_sent(a) + messages_sent(b) =~= messages_sent(a));
    } else {
        assert((a + b).drop_last() =~= a + b.drop_last());
        lemma_messages_sent_add(a, b.drop_last());
        assert(messages_sent(a + b) =~= messages_sent(a) + messages_sent(b));
    }
}

/// One answering button runs its command once, if it has one, and sends one
/// request, if notifications are on.
pub proof fn lemma_reaction_effects(button: ButtonView, notify: bool, notif_time_ms: u32)
    ensures
        commands_run(reaction(button, notify, notif_time_ms)) == match button.command {
            Some(command) => seq![command],
            None => Seq::empty(),
        },
        messages_sent(reaction(button, notify, notif_time_ms)) == if notify {
            seq![response(button, notif_time_ms)]
        } else {
            Seq::empty()
        },
{
    let log = seq![
        StepView::Log(LogLineView { level: Level::Info, text: match_text(button) }),
    ];
    let run = run_step(button);
    let send = send_step(button, notify, notif_time_ms);
    reveal_with_fuel(commands_run, 2);
    reveal_with_fuel(messages_sent, 2);
    assert(log.drop_last() =~= Seq::<StepView>::empty());
    if run.len() > 0 {
        assert(run.drop_last() =~= Seq::<StepView>::empty());
    }
    if send.len() > 0 {
        assert(send.drop_last() =~= Seq::<StepView>::empty());
    }
    lemma_commands_run_add(log + run, send);
    lemma_commands_run_add(log, run);
    lemma_messages_sent_add(log + run, send);
    lemma_messages_sent_add(log, run);
    assert(commands_run(log) + commands_run(run) + commands_run(send) =~= commands_run(run));
    assert(messages_sent(log) + messages_sent(run) + messages_sent(send) =~= messages_sent(send));
}

/// Buttons of other numbers set nothing off.
pub proof fn lemma_reactions_none(
    buttons: Seq<ButtonView>,
    number: u32,
    notify: bool,
    notif_time_ms: u32,
)
    requires
        !any_match(buttons, number),
    ensures
        reactions(buttons, number, notify, notif_time_ms) == Seq::<StepView>::empty(),
        count_matches(buttons, number) == 0,
    decreases buttons.len(),
{
    if buttons.len() > 0 {
        let front = buttons.drop_last();
        assert(buttons.last() == buttons[buttons.len() - 1]);
        assert forall|i: int| 0 <= i < front.len() implies (#[trigger] front[i]).id != number by {
            assert(front[i] == buttons[i]);
        }
        lemma_reactions_none(front, number, notify, notif_time_ms);
    }
}

/// Where one button alone has the number, what is set off is that button's
/// reaction.
pub proof fn lemma_reactions_one(
    buttons: Seq<ButtonView>,
    number: u32,
    notify: bool,
    notif_time_ms: u32,
    k: int,
)
    requires
        only_match(buttons, number, k),
    ensures
        reactions(buttons, number, notify, notif_time_ms) == reaction(
            buttons[k],
            notify,
            notif_time_ms,
        ),
        count_matches(buttons, number) == 1,
    decreases buttons.len(),
{
    let front = buttons.drop_last();
    let last = buttons.len() - 1;
    assert(buttons.last() == buttons[last]);
    if k == last {
        assert forall|i: int| 0 <= i < front.len() implies (#[trigger] front[i]).id != number by {
            assert(front[i] == buttons[i]);
        }
        lemma_reactions_none(front, number, notify, notif_time_ms);
        assert(reactions(buttons, number, notify, notif_time_ms) =~= reaction(
            buttons[k],
            notify,
            notif_time_ms,
        ));
    } else {
        assert(front[k] == buttons[k]);
        assert forall|i: int| 0 <= i < front.len() && i != k implies (#[trigger] front[i]).id
            != number by {
            assert(front[i] == buttons[i]);
        }
        lemma_reactions_one(front, number, notify, notif_time_ms, k);
        assert(reactions(buttons, number, notify, notif_time_ms) =~= reaction(
            buttons[k],
            notify,
            notif_time_ms,
        ));
    }
}

/// With notifications on, as many requests are sent as buttons answer;
/// with notifications off, none.
pub proof fn lemma_one_message_per_match(
    buttons: Seq<ButtonView>,
    number: u32,
    notify: bool,
    notif_time_ms: u32,
)
    ensures
        messages_sent(reactions(buttons, number, notify, notif_time_ms)).len() == if notify {
            count_matches(buttons, number)
        } else {
            0
        },
    decreases buttons.len(),
{
    if buttons.len() > 0 {
        let front = reactions(buttons.drop_last(), number, notify, notif_time_ms);
        lemma_one_message_per_match(buttons.drop_last(), number, notify, notif_time_ms);
        if buttons.last().id == number {
            let last = reaction(buttons.last(), notify, notif_time_ms);
            lemma_reaction_effects(buttons.last(), notify, notif_time_ms);
            lemma_messages_sent_add(front, last);
        } else {
            assert(front + Seq::<StepView>::empty() =~= front);
        }
    }
}

/// A report that exactly one button answers: that button's line is logged,
/// its command is run exactly once, if it has one, and, with notifications
/// on, exactly one display request is sent, made of its report lines.
pub proof fn lemma_single_match(parsed: ParsedTomlView, event: ButtonPushed, k: int)
    requires
        only_match(parsed.buttons, event.number, k),
    ensures
        dispatch_steps(parsed, event) == reaction(
            parsed.buttons[k],
            parsed.config.send_completed_notifs,
            parsed.config.display.notif_time_ms,
        ),
        commands_run(dispatch_steps(parsed, event)) == match parsed.buttons[k].command {
            Some(command) => seq![command],
            None => Seq::empty(),
        },
        messages_sent(dispatch_steps(parsed, event)) == if parsed.config.send_completed_notifs {
            seq![response(parsed.buttons[k], parsed.config.display.notif_time_ms)]
        } else {
            Seq::empty()
        },
{
    let notify = parsed.config.send_completed_notifs;
    let time = parsed.config.display.notif_time_ms;
    lemma_reactions_one(parsed.buttons, event.number, notify, time, k);
    lemma_reaction_effects(parsed.buttons[k], notify, time);
}

/// A report that no button answers: one error line is logged, no command is
/// run and nothing is sent.
pub proof fn lemma_no_match(parsed: ParsedTomlView, event: ButtonPushed)
    requires
        !any_match(parsed.buttons, event.number),
    ensures
        dispatch_steps(parsed, event) == seq![
            StepView::Log(
                LogLineView { level: Level::Error, text: unmatched_text(event.number) },
            ),
        ],
        commands_run(dispatch_steps(parsed, event)) == Seq::<Seq<char>>::empty(),
        messages_sent(dispatch_steps(parsed, event)) == Seq::<DisplayTextView>::empty(),
{
    let steps = dispatch_steps(parsed, event);
    reveal_with_fuel(commands_run, 2);
    reveal_with_fuel(messages_sent, 2);
    assert(steps.drop_last() =~= Seq::<StepView>::empty());
    assert(commands_run(steps) =~= Seq::<Seq<char>>::empty());
    assert(messages_sent(steps) =~= Seq::<DisplayTextView>::empty());
}

impl Button {
    /// The display request that reports this button's action.
    pub fn build_response(&self, notif_time_ms: u32) -> (message: DisplayText)
        requires
            self@.report_message is Some,
        ensures
            message@ == response(self@, notif_time_ms),
    {
        let lines = match &self.report_message {
            Some(lines) => copy_lines(lines),
            None => Vec::new(),
        };
        DisplayText { lines, brightness: REPLY_BRIGHTNESS, duration_ms: notif_time_ms }
    }

    /// The line that this button logs when it answers.
    pub fn match_line(&self) -> (line: LogLine)
        ensures
            line@ == (LogLineView { level: Level::Info, text: match_text(self@) }),
    {
        let text = match &self.log_message {
            Some(text) => text.clone(),
            None => {
                proof {
                    reveal_strlit("");
                }
                let text = with_number("Button match for ", self.id as u64, "");
                assert(text@ =~= match_text(self@));
                text
            },
        };
        LogLine { level: Level::Info, text }
    }
}

/// The line that is logged where no button answers.
pub fn unmatched_line(number: u32) -> (line: LogLine)
    ensures
        line@ == (LogLineView { level: Level::Error, text: unmatched_text(number) }),
{
    LogLine {
        level: Level::Error,
        text: with_number("Unable to parse protobuf reply. ID ", number as u64, " not found."),
    }
}

/// What the report `event` sets off under the configuration `parsed`.
///
/// Every button with the reported number reacts, in the order of the
/// configuration; where none has it, one error line is all.
pub fn dispatch(parsed: &ParsedToml, event: &ButtonPushed) -> (steps: Vec<Step>)
    ensures
        step_views(steps@) == dispatch_steps(parsed@, *event),
        !any_match(parsed@.buttons, event.number) ==> commands_run(step_views(steps@)).len() == 0
            && messages_sent(step_views(steps@)).len() == 0,
        forall|k: int|
            only_match(parsed@.buttons, event.number, k) ==> step_views(steps@) == reaction(
                #[trigger] parsed@.buttons[k],
                parsed@.config.send_completed_notifs,
                parsed@.config.display.notif_time_ms,
            ),
        messages_sent(step_views(steps@)).len() == if parsed@.config.send_completed_notifs {
            count_matches(parsed@.buttons, event.number)
        } else {
            0
        },
{
    let buttons = parsed.buttons();
    let config = parsed.config();
    let notify = config.send_completed_notifs;
    let time = config.display.notif_time_ms;
    let ghost views = button_views(buttons@);
    let mut steps: Vec<Step> = Vec::new();
    let mut matched = false;
    let mut i: usize = 0;
    proof {
        assert(step_views(steps@) =~= Seq::<StepView>::empty());
    }
    while i < buttons.len()
        invariant
            i <= buttons.len(),
            views == button_views(buttons@),
            notify ==> forall|j: int| 0 <= j < views.len() ==> (#[trigger] views[j]).reports(),
            step_views(steps@) == reactions(views.take(i as int), event.number, notify, time),
            matched == any_match(views.take(i as int), event.number),
        decreases buttons.len() - i,
    {
        let button = &buttons[i];
        let ghost before = views.take(i as int);
        let ghost upto = views.take(i + 1);
        proof {
            assert(upto.drop_last() =~= before);
            assert(upto.last() == button@);
            assert(views[i as int] == button@);
        }
        if button.id as u32 == event.number {
            let ghost old_steps = steps@;
            steps.push(Step::Log(button.match_line()));
            match &button.command {
                Some(command) => {
                    steps.push(Step::Run(command.clone()));
                },
                None => {},
            }
            if notify {
                assert(views[i as int].reports());
                steps.push(Step::Send(button.build_response(time)));
            }
            proof {
                assert(step_views(steps@) =~= step_views(old_steps) + reaction(
                    button@,
                    notify,
                    time,
                ));
                assert(upto[i as int].id == event.number);
            }
            matched = true;
        } else {
            proof {
                assert(step_views(steps@) + Seq::<StepView>::empty() =~= step_views(steps@));
                if any_match(upto, event.number) {
                    let j = choose|j: int| 0 <= j < upto.len() && (#[trigger] upto[j]).id == event.number;
                    assert(before[j] == upto[j]);
                }
                if any_match(before, event.number) {
                    let j = choose|j: int| 0 <= j < before.len() && (#[trigger] before[j]).id == event.number;
                    assert(before[j] == upto[j]);
                }
            }
        }
        i = i + 1;
    }
    proof {
        assert(views.take(i as int) =~= views);
    }
    if !matched {
        proof {
            lemma_reactions_none(views, event.number, notify, time);
        }
        steps.push(Step::Log(unmatched_line(event.number)));
        proof {
            assert(step_views(steps@) =~= dispatch_steps(parsed@, *event));
            lemma_no_match(parsed@, *event);
        }
    }
    proof {
        lemma_one_message_per_match(views, event.number, notify, time);
        assert forall|k: int| only_match(parsed@.buttons, event.number, k) implies step_views(
            steps@,
        ) == reaction(#[trigger] parsed@.buttons[k], notify, time) by {
            lemma_reactions_one(views, event.number, notify, time, k);
        }
    }
    steps
}

} // verus!
