//! The answers to the commands of a chat.
use crate::actions::{changes_nothing, plain, send_plain, views, Action, ActionView, Markup};
use crate::bot_command_helpers::{
    is_time_step, mensa_choice, mensa_disp_or_upd, optional_text, parse_time_send_status_msgs,
    TimeStep,
};
use crate::chance::random_below;
use crate::constants::NO_DB_MSG;
use crate::data_types::{
    Command, DialogueState, DisplayPreferences, JobHandlerTask, MensaKeyboardAction,
    ParsedTimeAndLastMsgFromDialleougueue, RegistrationEntry, TimeParseError, UnregisterTask,
    UpdateRegistrationTask,
};
use crate::markdown::well_escaped;
use crate::shared_main::{registration_of, DailyJob};
use crate::task_scheduler_funcs::{
    consistent, deletable, fits, performed, updatable, updating, World,
};
use crate::text::{cut, owned, split_once, trim, trimmed};
use uuid::Uuid;
use vstd::prelude::*;

verus! {

// ---------------------------------------------------------------------------------------------
// Which handler answers
// ---------------------------------------------------------------------------------------------

/// The parts of the bot that answer a message.
#[derive(Debug, Copy, Clone, PartialEq, Eq, Structural)]
pub enum Handler {
    Start,
    Day,
    ShowDifferentMensa,
    Subscribe,
    Unsubscribe,
    ChangeMensa,
    StartTimeDialogue,
    ReplyTimeDialogue,
    InvalidCommand,
}

/// Which part of the bot answers a message: a command counts before all else, and any other text is
/// a time of day only while one is awaited.
pub open spec fn handler_of(command: Option<Command>, state: DialogueState) -> Handler {
    match command {
        Some(Command::Start) => Handler::Start,
        Some(Command::Heute) => Handler::Day,
        Some(Command::Morgen) => Handler::Day,
        Some(Command::Uebermorgen) => Handler::Day,
        Some(Command::Andere) => Handler::ShowDifferentMensa,
        Some(Command::Subscribe) => Handler::Subscribe,
        Some(Command::Unsubscribe) => Handler::Unsubscribe,
        Some(Command::Mensa) => Handler::ChangeMensa,
        Some(Command::Uhrzeit) => Handler::StartTimeDialogue,
        None => if state == DialogueState::AwaitTimeReply {
            Handler::ReplyTimeDialogue
        } else {
            Handler::InvalidCommand
        },
    }
}

/// Which part of the bot answers a message.
pub fn schema(command: Option<Command>, state: DialogueState) -> (r: Handler)
    ensures
        r == handler_of(command, state),
{
    match command {
        Some(Command::Start) => Handler::Start,
        Some(Command::Heute) => Handler::Day,
        Some(Command::Morgen) => Handler::Day,
        Some(Command::Uebermorgen) => Handler::Day,
        Some(Command::Andere) => Handler::ShowDifferentMensa,
        Some(Command::Subscribe) => Handler::Subscribe,
        Some(Command::Unsubscribe) => Handler::Unsubscribe,
        Some(Command::Mensa) => Handler::ChangeMensa,
        Some(Command::Uhrzeit) => Handler::StartTimeDialogue,
        None => match state {
            DialogueState::AwaitTimeReply => Handler::ReplyTimeDialogue,
            DialogueState::Default => Handler::InvalidCommand,
        },
    }
}

// ---------------------------------------------------------------------------------------------
// Plain answers
// ---------------------------------------------------------------------------------------------

/// Offers the canteens to a chat that starts.
pub fn start() -> (r: Vec<Action>)
    ensures
        views(r@) == seq![
            ActionView::Send {
                text: "Mensa auswählen:"@,
                markdown: false,
                markup: Markup::Mensen(MensaKeyboardAction::Register),
            },
        ],
{
    vec![
        Action::Send {
            text: owned("Mensa auswählen:"),
            markdown: false,
            markup: Markup::Mensen(MensaKeyboardAction::Register),
        },
    ]
}

/// Answers what is no command.
pub fn invalid_cmd() -> (r: Vec<Action>)
    ensures
        views(r@) == seq![plain("Das ist kein Befehl."@)],
{
    vec![send_plain("Das ist kein Befehl.")]
}

/// How many days ahead a command asks for the plan of; `None` if it asks for none.
pub open spec fn days_ahead(cmd: Command) -> Option<i64> {
    match cmd {
        Command::Heute => Some(0),
        Command::Morgen => Some(1),
        Command::Uebermorgen => Some(2),
        _ => None,
    }
}

/// The answer to a command that asks for a plan.
pub open spec fn day_actions(
    cmd: Command,
    registration: Option<RegistrationEntry>,
) -> Seq<ActionView> {
    match registration {
        Some(entry) => seq![
            ActionView::SendMeals {
                days_forward: days_ahead(cmd)->0,
                mensa_id: entry.mensa_id,
                markup: Markup::Commands,
            },
        ],
        None => seq![plain(NO_DB_MSG@)],
    }
}

/// Answers a command that asks for a plan.
pub fn day_cmd(cmd: Command, registration: Option<RegistrationEntry>) -> (r: Vec<Action>)
    requires
        days_ahead(cmd) is Some,
    ensures
        views(r@) == day_actions(cmd, registration),
{
    let days_forward: i64 = match cmd {
        Command::Heute => 0,
        Command::Morgen => 1,
        _ => 2,
    };
    match registration {
        Some(entry) => vec![
            Action::SendMeals {
                days_forward,
                mensa_id: entry.mensa_id,
                markup: Markup::Commands,
            },
        ],
        None => vec![send_plain(NO_DB_MSG)],
    }
}

/// Offers the canteens, to show the plan of one of them once.
pub fn show_different_mensa(registration: Option<RegistrationEntry>) -> (r: Vec<Action>)
    ensures
        views(r@) == mensa_choice(registration, MensaKeyboardAction::DisplayOnce),
{
    mensa_disp_or_upd(registration, MensaKeyboardAction::DisplayOnce)
}

/// Offers the canteens, to stay with one of them.
pub fn change_mensa(registration: Option<RegistrationEntry>) -> (r: Vec<Action>)
    ensures
        views(r@) == mensa_choice(registration, MensaKeyboardAction::Update),
{
    mensa_disp_or_upd(registration, MensaKeyboardAction::Update)
}

// ---------------------------------------------------------------------------------------------
// The daily message
// ---------------------------------------------------------------------------------------------

/// The order to send the daily message of a chat at a time of day.
pub open spec fn at_time(chat_id: i64, hour: u32, minute: u32) -> JobHandlerTask {
    (UpdateRegistrationTask {
        chat_id,
        mensa_id: None,
        hour: Some(hour),
        minute: Some(minute),
    }).order()
}

fn order_time(chat_id: i64, hour: u32, minute: u32) -> (r: JobHandlerTask)
    ensures
        r == at_time(chat_id, hour, minute),
{
    JobHandlerTask::from(
        UpdateRegistrationTask {
            chat_id,
            mensa_id: None,
            hour: Some(hour),
            minute: Some(minute),
        },
    )
}

/// The order to stop the daily message of a chat.
pub open spec fn no_more(chat_id: i64) -> JobHandlerTask {
    (UnregisterTask { chat_id }).order()
}

/// The answer to the wish for a daily message. A chat that has one already now and then gets a
/// picture too, whenever chance rolls a zero.
pub open spec fn subscribe_actions(
    registration: Option<RegistrationEntry>,
    chat_id: i64,
    roll: int,
) -> Seq<ActionView> {
    match registration {
        Some(entry) => if entry.job_uuid is Some {
            (if roll == 0 {
                seq![ActionView::SendBloatImage]
            } else {
                seq![]
            }) + seq![plain("Automatische Nachrichten sind schon aktiviert."@)]
        } else {
            seq![
                ActionView::Send {
                    text:
                        "Plan wird ab jetzt automatisch an Wochentagen *06:00 Uhr* gesendet\\.\n\nÄndern mit /uhrzeit"@,
                    markdown: true,
                    markup: Markup::Plain,
                },
                ActionView::Queue(at_time(chat_id, 6, 0)),
            ]
        },
        None => seq![plain(NO_DB_MSG@)],
    }
}

/// Answers the wish for a daily message, if chance has rolled this number.
pub fn subscribe_with(
    registration: Option<RegistrationEntry>,
    chat_id: i64,
    roll: usize,
) -> (r: Vec<Action>)
    ensures
        views(r@) == subscribe_actions(registration, chat_id, roll as int),
{
    match registration {
        Some(entry) => if entry.job_uuid.is_some() {
            let mut r: Vec<Action> = Vec::new();
            if roll == 0 {
                r.push(Action::SendBloatImage);
            }
            r.push(send_plain("Automatische Nachrichten sind schon aktiviert."));
            r
        } else {
            vec![
                Action::Send {
                    text: owned(
                        "Plan wird ab jetzt automatisch an Wochentagen *06:00 Uhr* gesendet\\.\n\nÄndern mit /uhrzeit",
                    ),
                    markdown: true,
                    markup: Markup::Plain,
                },
                Action::Queue(order_time(chat_id, 6, 0)),
            ]
        },
        None => vec![send_plain(NO_DB_MSG)],
    }
}

/// Answers the wish for a daily message.
pub fn subscribe(registration: Option<RegistrationEntry>, chat_id: i64) -> (r: Vec<Action>)
    ensures
        exists|roll: int|
            0 <= roll < 10 && views(r@) == #[trigger] subscribe_actions(
                registration,
                chat_id,
                roll,
            ),
{
    let roll = random_below(10);
    subscribe_with(registration, chat_id, roll)
}

/// The answer to the wish for no more daily messages.
pub open spec fn unsubscribe_actions(
    registration: Option<RegistrationEntry>,
    chat_id: i64,
) -> Seq<ActionView> {
    match registration {
        Some(entry) => if entry.job_uuid is None {
            seq![plain("Automatische Nachrichten waren bereits deaktiviert."@)]
        } else {
            seq![
                plain("Plan wird nicht mehr automatisch gesendet."@),
                ActionView::Queue(no_more(chat_id)),
            ]
        },
        None => seq![plain(NO_DB_MSG@)],
    }
}

/// Answers the wish for no more daily messages.
pub fn unsubscribe(registration: Option<RegistrationEntry>, chat_id: i64) -> (r: Vec<Action>)
    ensures
        views(r@) == unsubscribe_actions(registration, chat_id),
{
    match registration {
        Some(entry) => if entry.job_uuid.is_none() {
            vec![send_plain("Automatische Nachrichten waren bereits deaktiviert.")]
        } else {
            vec![
                send_plain("Plan wird nicht mehr automatisch gesendet."),
                Action::Queue(JobHandlerTask::from(UnregisterTask { chat_id })),
            ]
        },
        None => vec![send_plain(NO_DB_MSG)],
    }
}

// ---------------------------------------------------------------------------------------------
// What is shown
// ---------------------------------------------------------------------------------------------

/// The answer to the wish to see allergens, or to see them no more.
pub open spec fn allergene_actions(preferences: Option<DisplayPreferences>) -> Seq<ActionView> {
    match preferences {
        Some(before) => {
            let shown = !before.allergens;
            seq![
                ActionView::StoreAllergens(shown),
                ActionView::StorePreferences(DisplayPreferences { allergens: shown, ..before }),
                plain(
                    if shown {
                        "✅ Allergene werden jetzt angezeigt."@
                    } else {
                        "❌ Allergene werden nicht mehr angezeigt."@
                    },
                ),
            ]
        },
        None => seq![plain(NO_DB_MSG@)],
    }
}

/// Turns the allergens in the messages of a chat on or off.
pub fn allergene(preferences: Option<DisplayPreferences>) -> (r: Vec<Action>)
    ensures
        views(r@) == allergene_actions(preferences),
{
    match preferences {
        Some(before) => {
            let shown = !before.allergens;
            vec![
                Action::StoreAllergens(shown),
                Action::StorePreferences(
                    DisplayPreferences { allergens: shown, senddiff: before.senddiff },
                ),
                if shown {
                    send_plain("✅ Allergene werden jetzt angezeigt.")
                } else {
                    send_plain("❌ Allergene werden nicht mehr angezeigt.")
                },
            ]
        },
        None => vec![send_plain(NO_DB_MSG)],
    }
}

/// The answer to the wish to see only what has changed of a plan, or all of it.
pub open spec fn senddiff_actions(preferences: Option<DisplayPreferences>) -> Seq<ActionView> {
    match preferences {
        Some(before) => {
            let only_changes = !before.senddiff;
            seq![
                ActionView::StoreAllergens(only_changes),
                ActionView::StorePreferences(
                    DisplayPreferences { senddiff: only_changes, ..before },
                ),
                plain(
                    if only_changes {
                        "✅ Nur Änderungen werden bei Planänderung gesendet."@
                    } else {
                        "❌ Gesamter Plan wird bei Änderungen gesendet."@
                    },
                ),
            ]
        },
        None => seq![plain(NO_DB_MSG@)],
    }
}

/// Switches between only what has changed of a plan and all of it.
pub fn senddiff(preferences: Option<DisplayPreferences>) -> (r: Vec<Action>)
    ensures
        views(r@) == senddiff_actions(preferences),
{
    match preferences {
        Some(before) => {
            let only_changes = !before.senddiff;
            vec![
                Action::StoreAllergens(only_changes),
                Action::StorePreferences(
                    DisplayPreferences { allergens: before.allergens, senddiff: only_changes },
                ),
                if only_changes {
                    send_plain("✅ Nur Änderungen werden bei Planänderung gesendet.")
                } else {
                    send_plain("❌ Gesamter Plan wird bei Änderungen gesendet.")
                },
            ]
        },
        None => vec![send_plain(NO_DB_MSG)],
    }
}

// ---------------------------------------------------------------------------------------------
// The dialogue about the time
// ---------------------------------------------------------------------------------------------

/// How the dialogue about the time goes on.
#[derive(Debug, PartialEq)]
pub enum TimeDialogue {
    /// This is done, and then the message is answered.
    Done(Vec<Action>),
    /// A time is taken from the message.
    Parse(TimeStep),
}

/// What follows the command in a message: all after the first blank, without white space around it.
pub open spec fn argument_of(text: Option<Seq<char>>) -> Option<Seq<char>> {
    match text {
        Some(text) => match cut(text, ' ') {
            Some((_, argument)) => Some(trimmed(argument)),
            None => None,
        },
        None => None,
    }
}

/// What a chat is told that has not been entered yet and wants to set a time.
pub open spec fn no_time_to_set() -> Seq<ActionView> {
    seq![plain(NO_DB_MSG@), ActionView::ExitDialogue]
}

/// Begins the dialogue about the time. The command may bring the time along.
pub fn start_time_dialogue(
    text: Option<&str>,
    registration: Option<RegistrationEntry>,
) -> (r: TimeDialogue)
    ensures
        match registration {
            None => r matches TimeDialogue::Done(actions) && views(actions@) == no_time_to_set(),
            Some(_) => r matches TimeDialogue::Parse(step) && is_time_step(
                step,
                argument_of(optional_text(text)),
            ),
        },
{
    if registration.is_none() {
        return TimeDialogue::Done(vec![send_plain(NO_DB_MSG), Action::ExitDialogue]);
    }
    match text {
        Some(text) => match split_once(text, ' ') {
            Some((_, argument)) => {
                let trimmed_argument = trim(argument.as_str());
                TimeDialogue::Parse(parse_time_send_status_msgs(Some(trimmed_argument.as_str())))
            },
            None => TimeDialogue::Parse(parse_time_send_status_msgs(None)),
        },
        None => TimeDialogue::Parse(parse_time_send_status_msgs(None)),
    }
}

/// What is done with the time that a command brought along: it is set, or the next message is
/// awaited.
pub open spec fn started_actions(
    parsed: Result<ParsedTimeAndLastMsgFromDialleougueue, TimeParseError>,
    chat_id: i64,
) -> Seq<ActionView> {
    match parsed {
        Ok(time) => seq![ActionView::Queue(at_time(chat_id, time.hour, time.minute))],
        Err(_) => seq![ActionView::UpdateDialogue(DialogueState::AwaitTimeReply)],
    }
}

/// Does what is done with the time that a command brought along.
pub fn time_dialogue_started(
    parsed: Result<ParsedTimeAndLastMsgFromDialleougueue, TimeParseError>,
    chat_id: i64,
) -> (r: Vec<Action>)
    ensures
        views(r@) == started_actions(parsed, chat_id),
{
    match parsed {
        Ok(time) => vec![Action::Queue(order_time(chat_id, time.hour, time.minute))],
        Err(_) => vec![Action::UpdateDialogue(DialogueState::AwaitTimeReply)],
    }
}

/// Takes a reply in the dialogue about the time.
pub fn reply_time_dialogue(text: Option<&str>) -> (r: TimeDialogue)
    ensures
        match text {
            None => r matches TimeDialogue::Done(actions) && views(actions@) == seq![
                plain("Das ist kein Text.\nBitte mit Uhrzeit antworten:"@),
            ],
            Some(text) => r matches TimeDialogue::Parse(step) && is_time_step(step, Some(text@)),
        },
{
    match text {
        None => TimeDialogue::Done(
            vec![send_plain("Das ist kein Text.\nBitte mit Uhrzeit antworten:")],
        ),
        Some(text) => TimeDialogue::Parse(parse_time_send_status_msgs(Some(text))),
    }
}

/// What is done with a reply: a time is set and the dialogue ends, or it goes on.
pub open spec fn replied_actions(
    parsed: Result<ParsedTimeAndLastMsgFromDialleougueue, TimeParseError>,
    chat_id: i64,
) -> Seq<ActionView> {
    match parsed {
        Ok(time) => seq![
            ActionView::ExitDialogue,
            ActionView::Queue(at_time(chat_id, time.hour, time.minute)),
        ],
        Err(_) => seq![],
    }
}

/// Does what is done with a reply.
pub fn time_dialogue_replied(
    parsed: Result<ParsedTimeAndLastMsgFromDialleougueue, TimeParseError>,
    chat_id: i64,
) -> (r: Vec<Action>)
    ensures
        views(r@) == replied_actions(parsed, chat_id),
{
    match parsed {
        Ok(time) => vec![
            Action::ExitDialogue,
            Action::Queue(order_time(chat_id, time.hour, time.minute)),
        ],
        Err(_) => Vec::new(),
    }
}

// ---------------------------------------------------------------------------------------------
// Laws
// ---------------------------------------------------------------------------------------------

/// A chat that has not been entered is told so by every command that needs a registration, and
/// nothing is ordered or written down for it.
pub proof fn law_unknown_chat(
    cmd: Command,
    picked: MensaKeyboardAction,
    chat_id: i64,
    roll: int,
)
    ensures
        ({
            let told = seq![plain(NO_DB_MSG@)];
            &&& changes_nothing(told)
            &&& day_actions(cmd, None) == told
            &&& mensa_choice(None, picked) == told
            &&& subscribe_actions(None, chat_id, roll) == told
            &&& unsubscribe_actions(None, chat_id) == told
            &&& allergene_actions(None) == told
            &&& senddiff_actions(None) == told
            &&& no_time_to_set() == told.push(ActionView::ExitDialogue)
            &&& changes_nothing(no_time_to_set())
        }),
{
    assert(no_time_to_set() == seq![plain(NO_DB_MSG@)].push(ActionView::ExitDialogue));
}

/// The preferences that a list of actions leaves behind.
pub open spec fn preferences_after(
    actions: Seq<ActionView>,
    before: DisplayPreferences,
) -> DisplayPreferences
    decreases actions.len(),
{
    if actions.len() == 0 {
        before
    } else {
        match actions.last() {
            ActionView::StorePreferences(preferences) => preferences,
            _ => preferences_after(actions.drop_last(), before),
        }
    }
}

/// What is written to the database about the allergens of a chat by some actions, if anything is.
pub open spec fn allergens_written(actions: Seq<ActionView>) -> Option<bool>
    decreases actions.len(),
{
    if actions.len() == 0 {
        None
    } else {
        match actions.last() {
            ActionView::StoreAllergens(shown) => Some(shown),
            _ => allergens_written(actions.drop_last()),
        }
    }
}

/// Each of the two switches changes its own preference and no other, and to use it twice changes
/// nothing of what is remembered. Both write to the same column of the database, each the new value
/// of its own preference: there, the switch for changes overwrites the one for allergens.
pub proof fn law_switches(before: DisplayPreferences)
    ensures
        ({
            let once = preferences_after(allergene_actions(Some(before)), before);
            &&& once == DisplayPreferences { allergens: !before.allergens, ..before }
            &&& allergens_written(allergene_actions(Some(before))) == Some(once.allergens)
            &&& preferences_after(allergene_actions(Some(once)), once) == before
        }),
        ({
            let once = preferences_after(senddiff_actions(Some(before)), before);
            &&& once == DisplayPreferences { senddiff: !before.senddiff, ..before }
            &&& allergens_written(senddiff_actions(Some(before))) == Some(once.senddiff)
            &&& preferences_after(senddiff_actions(Some(once)), once) == before
        }),
{
    reveal_with_fuel(preferences_after, 3);
    reveal_with_fuel(allergens_written, 4);
    assert forall|p: DisplayPreferences| #[trigger]
        allergene_actions(Some(p)).drop_last().last() == ActionView::StorePreferences(
            DisplayPreferences { allergens: !p.allergens, ..p },
        ) by {};
    assert forall|p: DisplayPreferences| #[trigger]
        senddiff_actions(Some(p)).drop_last().last() == ActionView::StorePreferences(
            DisplayPreferences { senddiff: !p.senddiff, ..p },
        ) by {};
}

/// Where the answer to the wish for a daily message is sent as MarkdownV2, every special character
/// stands behind a backslash.
pub proof fn law_subscribe_is_escaped(
    registration: Option<RegistrationEntry>,
    chat_id: i64,
    roll: int,
    i: int,
)
    requires
        0 <= i < subscribe_actions(registration, chat_id, roll).len(),
    ensures
        subscribe_actions(registration, chat_id, roll)[i] matches ActionView::Send {
            text,
            markdown,
            ..
        } ==> markdown ==> well_escaped(text),
{
    reveal_strlit(
        "Plan wird ab jetzt automatisch an Wochentagen *06:00 Uhr* gesendet\\.\n\nÄndern mit /uhrzeit",
    );
}

/// Whoever wishes for a daily message and has none gets a job for six o'clock, from the canteen of
/// the chat.
pub proof fn law_subscribe_loads_job(world: World, chat_id: i64, roll: int, fresh: Uuid)
    requires
        consistent(world),
        !world.jobs.dom().contains(fresh),
        world.registrations.dom().contains(chat_id),
        world.registrations[chat_id].job_uuid is None,
    ensures
        ({
            let entry = world.registrations[chat_id];
            let order = at_time(chat_id, 6, 0);
            let after = performed(world, updating(entry, order), fresh);
            &&& subscribe_actions(Some(entry), chat_id, roll).last() == ActionView::Queue(order)
            &&& updatable(Some(entry), order)
            &&& after.registrations[chat_id].job_uuid == Some(fresh)
            &&& after.jobs == world.jobs.insert(
                fresh,
                DailyJob { chat_id, mensa_id: entry.mensa_id, hour: 6, minute: 0 },
            )
        }),
{
    assert(fits(chat_id, world.registrations[chat_id], world.table[chat_id], world.jobs));
}

/// The daily message is only ordered to stop where there is one to stop.
pub proof fn law_unsubscribe_has_job(
    registrations: Map<i64, RegistrationEntry>,
    chat_id: i64,
    i: int,
)
    requires
        ({
            let actions = unsubscribe_actions(registration_of(registrations, chat_id), chat_id);
            0 <= i < actions.len() && actions[i] is Queue
        }),
    ensures
        unsubscribe_actions(registration_of(registrations, chat_id), chat_id)[i]
            == ActionView::Queue(no_more(chat_id)),
        deletable(registrations, no_more(chat_id)),
{
}

/// The time that a message brings is the one that is ordered, and the order can be carried out for
/// any chat that has been entered.
pub proof fn law_time_is_ordered(
    world: World,
    chat_id: i64,
    time: ParsedTimeAndLastMsgFromDialleougueue,
)
    requires
        consistent(world),
        world.registrations.dom().contains(chat_id),
        time.hour < 24,
        time.minute < 60,
    ensures
        started_actions(Ok(time), chat_id).last() == ActionView::Queue(
            at_time(chat_id, time.hour, time.minute),
        ),
        replied_actions(Ok(time), chat_id).last() == ActionView::Queue(
            at_time(chat_id, time.hour, time.minute),
        ),
        updatable(
            registration_of(world.registrations, chat_id),
            at_time(chat_id, time.hour, time.minute),
        ),
{
    assert(fits(chat_id, world.registrations[chat_id], world.table[chat_id], world.jobs));
}

} // verus!
