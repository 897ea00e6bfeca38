//! The answers of the bot with day buttons to commands and pressed buttons.
use crate::bot_command_helpers::{announce, announcement, time_at_start, time_of};
use crate::button_bot::data_types::{
    Command, JobHandlerTask, JobType, RegistrationEntry, TimeParseError,
};
use crate::button_bot::stuwe_parser::mensa_views;
use crate::constants::NO_DB_MSG;
use crate::markdown::{bold, bold_text};
use crate::shared_main::{is_day, parse_day, InlineButton};
use crate::text::{
    cut, digit_value, digits_value, lemma_first_of, owned, parts, same_text, signed_value,
    split, split_once, texts,
};
use vstd::prelude::*;
use vstd::string::StringExecFns;

verus! {

// ---------------------------------------------------------------------------------------------
// What is done in a chat
// ---------------------------------------------------------------------------------------------

/// The buttons that come with a message.
#[derive(Debug, Copy, Clone, PartialEq, Eq, Structural)]
pub enum Buttons {
    /// None.
    Nothing,
    /// One for every canteen, to enter the chat with it.
    RegisterMensa,
    /// One for every canteen, to change to it.
    UpdateMensa,
}

/// One thing to do in a chat. A list of them is done from the first to the last.
#[derive(Debug, Clone, PartialEq)]
pub enum Action {
    /// Acknowledge that a button was pressed.
    AnswerCallback,
    /// Send a text, as MarkdownV2 or as it is.
    Send { text: String, markdown: bool, buttons: Buttons },
    /// Build the message that shows a plan, and send it as MarkdownV2 with the buttons for the days.
    SendMeals { days_forward: i64, mensa_id: u8 },
    /// Build the message that shows the plan for today, and send it as MarkdownV2 under the heading
    /// of a changed plan, without buttons.
    SendChange { mensa_id: u8 },
    /// Try to take the buttons away from a message.
    RemoveButtons { message_id: i32 },
    /// Try to take the buttons away from the message whose button was pressed.
    RemovePressedButtons,
    /// Exchange the text of the message whose button was pressed.
    EditPressed { text: String, markdown: bool },
    /// Give an order to the task scheduler.
    Queue(JobHandlerTask),
    /// Write to the database what an order sets.
    UpdateDb(JobHandlerTask),
}

/// An action, with its text as a sequence of characters.
pub ghost enum ActionView {
    AnswerCallback,
    Send { text: Seq<char>, markdown: bool, buttons: Buttons },
    SendMeals { days_forward: i64, mensa_id: u8 },
    SendChange { mensa_id: u8 },
    RemoveButtons { message_id: i32 },
    RemovePressedButtons,
    EditPressed { text: Seq<char>, markdown: bool },
    Queue(JobHandlerTask),
    UpdateDb(JobHandlerTask),
}

impl View for Action {
    type V = ActionView;

    open spec fn view(&self) -> ActionView {
        match *self {
            Action::AnswerCallback => ActionView::AnswerCallback,
            Action::Send { text, markdown, buttons } => ActionView::Send {
                text: text@,
                markdown,
                buttons,
            },
            Action::SendMeals { days_forward, mensa_id } => ActionView::SendMeals {
                days_forward,
                mensa_id,
            },
            Action::SendChange { mensa_id } => ActionView::SendChange { mensa_id },
            Action::RemoveButtons { message_id } => ActionView::RemoveButtons { message_id },
            Action::RemovePressedButtons => ActionView::RemovePressedButtons,
            Action::EditPressed { text, markdown } => ActionView::EditPressed {
                text: text@,
                markdown,
            },
            Action::Queue(task) => ActionView::Queue(task),
            Action::UpdateDb(task) => ActionView::UpdateDb(task),
        }
    }
}

/// A list of actions, with their texts as sequences of characters.
pub open spec fn views(actions: Seq<Action>) -> Seq<ActionView> {
    actions.map_values(|a: Action| a@)
}

/// The action that sends a text as it is.
pub open spec fn plain(text: Seq<char>) -> ActionView {
    ActionView::Send { text, markdown: false, buttons: Buttons::Nothing }
}

fn send_plain(text: &str) -> (r: Action)
    ensures
        r@ == plain(text@),
{
    Action::Send { text: owned(text), markdown: false, buttons: Buttons::Nothing }
}

/// The action that takes the buttons away from a message, if there is one.
pub open spec fn removal(message: Option<i32>) -> Seq<ActionView> {
    match message {
        Some(message_id) => seq![ActionView::RemoveButtons { message_id }],
        None => seq![],
    }
}

fn push_removal(actions: &mut Vec<Action>, message: Option<i32>)
    ensures
        views(final(actions)@) == views(old(actions)@) + removal(message),
{
    if let Some(message_id) = message {
        actions.push(Action::RemoveButtons { message_id });
    }
    assert(views(actions@) == views(old(actions)@) + removal(message));
}

// ---------------------------------------------------------------------------------------------
// Orders
// ---------------------------------------------------------------------------------------------

/// The order that asks what is registered for a chat.
pub open spec fn query_for(chat_id: i64) -> JobHandlerTask {
    JobHandlerTask {
        job_type: JobType::QueryRegistration,
        chat_id: Some(chat_id),
        mensa_id: None,
        hour: None,
        minute: None,
        callback_id: None,
    }
}

/// The order that asks what is registered for a chat.
pub fn make_query_data(chat_id: i64) -> (r: JobHandlerTask)
    ensures
        r == query_for(chat_id),
{
    JobHandlerTask {
        job_type: JobType::QueryRegistration,
        chat_id: Some(chat_id),
        mensa_id: None,
        hour: None,
        minute: None,
        callback_id: None,
    }
}

/// The order to send the daily message of a chat at a time of day.
pub open spec fn at_time(chat_id: i64, hour: u32, minute: u32) -> JobHandlerTask {
    JobHandlerTask {
        job_type: JobType::UpdateRegistration,
        hour: Some(hour),
        minute: Some(minute),
        ..query_for(chat_id)
    }
}

fn order_time(chat_id: i64, hour: u32, minute: u32) -> (r: JobHandlerTask)
    ensures
        r == at_time(chat_id, hour, minute),
{
    JobHandlerTask {
        job_type: JobType::UpdateRegistration,
        chat_id: Some(chat_id),
        mensa_id: None,
        hour: Some(hour),
        minute: Some(minute),
        callback_id: None,
    }
}

/// The order to use another canteen for a chat.
pub open spec fn other_mensa(chat_id: i64, mensa_id: u8) -> JobHandlerTask {
    JobHandlerTask {
        job_type: JobType::UpdateRegistration,
        mensa_id: Some(mensa_id),
        ..query_for(chat_id)
    }
}

/// The order to enter a chat. Its daily message comes at six o'clock.
pub open spec fn first_registration(chat_id: i64, mensa_id: u8) -> JobHandlerTask {
    JobHandlerTask {
        job_type: JobType::Register,
        mensa_id: Some(mensa_id),
        hour: Some(6),
        minute: Some(0),
        ..query_for(chat_id)
    }
}

/// The order to stop the daily message of a chat.
pub open spec fn no_more(chat_id: i64) -> JobHandlerTask {
    JobHandlerTask { job_type: JobType::Unregister, ..query_for(chat_id) }
}

/// The order to remember which message of a chat has buttons.
pub open spec fn remember(chat_id: i64, message_id: i32) -> JobHandlerTask {
    JobHandlerTask {
        job_type: JobType::InsertCallbackMessageId,
        callback_id: Some(message_id),
        ..query_for(chat_id)
    }
}

/// What is done once a plan has been sent: the message that had the buttons until then loses them,
/// and the new one is remembered.
pub open spec fn sent_actions(
    chat_id: i64,
    registration: RegistrationEntry,
    message_id: i32,
) -> Seq<ActionView> {
    removal(registration.callback_id) + remembered(chat_id, message_id)
}

/// What is done to remember which message has buttons.
pub open spec fn remembered(chat_id: i64, message_id: i32) -> Seq<ActionView> {
    seq![
        ActionView::UpdateDb(remember(chat_id, message_id)),
        ActionView::Queue(remember(chat_id, message_id)),
    ]
}

/// Remembers which message has buttons.
pub fn remember_buttons(chat_id: i64, message_id: i32) -> (r: Vec<Action>)
    ensures
        views(r@) == remembered(chat_id, message_id),
{
    let task = JobHandlerTask {
        job_type: JobType::InsertCallbackMessageId,
        chat_id: Some(chat_id),
        mensa_id: None,
        hour: None,
        minute: None,
        callback_id: Some(message_id),
    };
    vec![Action::UpdateDb(task), Action::Queue(task)]
}

/// Does what is done once a plan has been sent, by the daily job or by a command.
pub fn plan_sent(chat_id: i64, registration: &RegistrationEntry, message_id: i32) -> (r: Vec<
    Action,
>)
    ensures
        views(r@) == sent_actions(chat_id, *registration, message_id),
{
    let mut r: Vec<Action> = Vec::new();
    push_removal(&mut r, registration.callback_id);
    let mut rest = remember_buttons(chat_id, message_id);
    let ghost before = r@;
    let ghost after = rest@;
    r.append(&mut rest);
    assert(views(r@) == views(before) + views(after));
    assert(views(before) == removal(registration.callback_id));
    r
}

/// What is done once a pressed button has shown a plan: a button for a day has the message
/// remembered, and no other button has.
pub open spec fn pressed_actions(data: Seq<char>, chat_id: i64, message_id: i32) -> Seq<ActionView> {
    match cut(data, ':') {
        Some((cmd, _)) => if cmd == "day"@ {
            remembered(chat_id, message_id)
        } else {
            seq![]
        },
        None => seq![],
    }
}

/// Does what is done once the button with this data has shown a plan.
pub fn pressed_plan_sent(data: &str, chat_id: i64, message_id: i32) -> (r: Vec<Action>)
    ensures
        views(r@) == pressed_actions(data@, chat_id, message_id),
{
    match split_once(data, ':') {
        Some((cmd, _)) => if same_text(cmd.as_str(), "day") {
            remember_buttons(chat_id, message_id)
        } else {
            Vec::new()
        },
        None => Vec::new(),
    }
}

/// What a chat gets when the plan of its canteen has changed: the message that has the buttons loses
/// them, and the new plan is sent.
pub open spec fn change_actions(registration: RegistrationEntry) -> Seq<ActionView> {
    removal(registration.callback_id) + seq![
        ActionView::SendChange { mensa_id: registration.mensa_id },
    ]
}

/// Tells a chat that the plan of its canteen has changed.
pub fn tell_change(registration: &RegistrationEntry) -> (r: Vec<Action>)
    ensures
        views(r@) == change_actions(*registration),
{
    let mut r: Vec<Action> = Vec::new();
    push_removal(&mut r, registration.callback_id);
    let ghost before = r@;
    r.push(Action::SendChange { mensa_id: registration.mensa_id });
    assert(views(r@) == views(before).push(
        ActionView::SendChange { mensa_id: registration.mensa_id },
    ));
    r
}

// ---------------------------------------------------------------------------------------------
// Commands
// ---------------------------------------------------------------------------------------------

/// The time of day that follows the command in a message: what stands between its first blank and
/// the next.
pub open spec fn time_argument(txt: Seq<char>) -> Result<(u32, u32), TimeParseError> {
    let words = parts(txt, ' ');
    if words.len() > 1 {
        match time_of(words[1]) {
            Some(time) => Ok(time),
            None => Err(TimeParseError::InvalidTimePassed),
        }
    } else {
        Err(TimeParseError::NoTimePassed)
    }
}

/// Reads the time of day that follows the command in a message.
pub fn parse_time(txt: &str) -> (r: Result<(u32, u32), TimeParseError>)
    ensures
        r == time_argument(txt@),
{
    let words = split(txt, ' ');
    assert(texts(words@).len() == words@.len());
    if words.len() > 1 {
        assert(texts(words@)[1] == words@[1]@);
        match time_at_start(words[1].as_str()) {
            Some(time) => Ok(time),
            None => Err(TimeParseError::InvalidTimePassed),
        }
    } else {
        Err(TimeParseError::NoTimePassed)
    }
}

/// How many days ahead a command asks for the plan of; `None` if it asks for none.
pub open spec fn days_ahead(cmd: Command) -> Option<i64> {
    match cmd {
        Command::Heute => Some(0),
        Command::Morgen => Some(1),
        Command::Uebermorgen => Some(2),
        _ => None,
    }
}

/// The answer to a command of a chat that has been entered.
pub open spec fn known_chat_actions(
    cmd: Command,
    text: Seq<char>,
    chat_id: i64,
    entry: RegistrationEntry,
) -> Seq<ActionView> {
    match cmd {
        Command::Heute | Command::Morgen | Command::Uebermorgen => removal(entry.callback_id)
            + seq![
            ActionView::SendMeals {
                days_forward: days_ahead(cmd)->0,
                mensa_id: entry.mensa_id,
            },
        ],
        Command::Mensa => seq![
            ActionView::Send {
                text: "Mensa auswählen:"@,
                markdown: false,
                buttons: Buttons::UpdateMensa,
            },
        ],
        Command::Subscribe => if entry.job_uuid is Some {
            seq![
                ActionView::Queue(query_for(chat_id)),
                plain("Automatische Nachrichten sind schon aktiviert."@),
            ]
        } else {
            seq![
                ActionView::Queue(query_for(chat_id)),
                plain(
                    "Plan wird ab jetzt automatisch an Wochentagen 06:00 Uhr gesendet.\n\nÄndern mit /uhrzeit [Zeit]"@,
                ),
                ActionView::Queue(at_time(chat_id, 6, 0)),
            ]
        },
        Command::Unsubscribe => if entry.job_uuid is None {
            seq![plain("Automatische Nachrichten waren bereits deaktiviert."@)]
        } else {
            seq![
                plain("Plan wird nicht mehr automatisch gesendet."@),
                ActionView::Queue(no_more(chat_id)),
            ]
        },
        Command::Uhrzeit => match time_argument(text) {
            Ok((hour, minute)) => seq![
                plain(announcement(hour as nat, minute as nat)),
                ActionView::Queue(at_time(chat_id, hour, minute)),
            ],
            Err(TimeParseError::NoTimePassed) => seq![
                plain("Bitte Zeit angeben\n/uhrzeit [Zeit]"@),
            ],
            Err(TimeParseError::InvalidTimePassed) => seq![
                plain("Eingegebene Zeit ist ungültig."@),
            ],
        },
        Command::Start => seq![],
    }
}

/// The answer to a message. A chat may always start; whatever else it asks for, it must have been
/// entered.
pub open spec fn command_actions(
    cmd: Option<Command>,
    text: Seq<char>,
    chat_id: i64,
    registration: Option<RegistrationEntry>,
) -> Seq<ActionView> {
    match cmd {
        None => seq![plain("Ungültiger Befehl"@)],
        Some(Command::Start) => seq![
            ActionView::Send {
                text: "Mensa auswählen:"@,
                markdown: false,
                buttons: Buttons::RegisterMensa,
            },
        ],
        Some(cmd) => match registration {
            Some(entry) => known_chat_actions(cmd, text, chat_id, entry),
            None => seq![plain(NO_DB_MSG@)],
        },
    }
}

fn show_plan(days_forward: i64, entry: &RegistrationEntry) -> (r: Vec<Action>)
    ensures
        views(r@) == removal(entry.callback_id) + seq![
            ActionView::SendMeals { days_forward, mensa_id: entry.mensa_id },
        ],
{
    let mut r: Vec<Action> = Vec::new();
    push_removal(&mut r, entry.callback_id);
    let ghost before = r@;
    r.push(Action::SendMeals { days_forward, mensa_id: entry.mensa_id });
    assert(views(r@) == views(before).push(r@.last()@));
    r
}

fn set_time(text: &str, chat_id: i64) -> (r: Vec<Action>)
    ensures
        forall|entry: RegistrationEntry| #[trigger]
            known_chat_actions(Command::Uhrzeit, text@, chat_id, entry) == views(r@),
{
    match parse_time(text) {
        Ok((hour, minute)) => {
            let message = announce(hour, minute);
            let r = vec![
                send_plain(message.as_str()),
                Action::Queue(order_time(chat_id, hour, minute)),
            ];
            assert(views(r@) == seq![
                plain(announcement(hour as nat, minute as nat)),
                ActionView::Queue(at_time(chat_id, hour, minute)),
            ]);
            r
        },
        Err(TimeParseError::NoTimePassed) => {
            let r = vec![send_plain("Bitte Zeit angeben\n/uhrzeit [Zeit]")];
            assert(views(r@) == seq![plain("Bitte Zeit angeben\n/uhrzeit [Zeit]"@)]);
            r
        },
        Err(TimeParseError::InvalidTimePassed) => {
            let r = vec![send_plain("Eingegebene Zeit ist ungültig.")];
            assert(views(r@) == seq![plain("Eingegebene Zeit ist ungültig."@)]);
            r
        },
    }
}

/// Answers a message of a chat: the command in it, if it is one, or else that it is none. A message
/// without a text is not answered.
pub fn command_handler(
    text: Option<&str>,
    cmd: Option<Command>,
    chat_id: i64,
    registration: Option<RegistrationEntry>,
) -> (r: Vec<Action>)
    ensures
        views(r@) == match text {
            Some(text) => command_actions(cmd, text@, chat_id, registration),
            None => seq![],
        },
{
    let text = match text {
        Some(text) => text,
        None => {
            return Vec::new();
        },
    };
    match cmd {
        None => vec![send_plain("Ungültiger Befehl")],
        Some(Command::Start) => vec![
            Action::Send {
                text: owned("Mensa auswählen:"),
                markdown: false,
                buttons: Buttons::RegisterMensa,
            },
        ],
        Some(cmd) => match registration {
            None => vec![send_plain(NO_DB_MSG)],
            Some(entry) => match cmd {
                Command::Heute => show_plan(0, &entry),
                Command::Morgen => show_plan(1, &entry),
                Command::Uebermorgen => show_plan(2, &entry),
                Command::Mensa => vec![
                    Action::Send {
                        text: owned("Mensa auswählen:"),
                        markdown: false,
                        buttons: Buttons::UpdateMensa,
                    },
                ],
                Command::Subscribe => if entry.job_uuid.is_some() {
                    vec![
                        Action::Queue(make_query_data(chat_id)),
                        send_plain("Automatische Nachrichten sind schon aktiviert."),
                    ]
                } else {
                    vec![
                        Action::Queue(make_query_data(chat_id)),
                        send_plain(
                            "Plan wird ab jetzt automatisch an Wochentagen 06:00 Uhr gesendet.\n\nÄndern mit /uhrzeit [Zeit]",
                        ),
                        Action::Queue(order_time(chat_id, 6, 0)),
                    ]
                },
                Command::Unsubscribe => if entry.job_uuid.is_none() {
                    vec![send_plain("Automatische Nachrichten waren bereits deaktiviert.")]
                } else {
                    vec![
                        send_plain("Plan wird nicht mehr automatisch gesendet."),
                        Action::Queue(
                            JobHandlerTask {
                                job_type: JobType::Unregister,
                                chat_id: Some(chat_id),
                                mensa_id: None,
                                hour: None,
                                minute: None,
                                callback_id: None,
                            },
                        ),
                    ]
                },
                Command::Uhrzeit => {
                    let r = set_time(text, chat_id);
                    assert(known_chat_actions(Command::Uhrzeit, text@, chat_id, entry) == views(
                        r@,
                    ));
                    r
                },
                Command::Start => Vec::new(),
            },
        },
    }
}

// ---------------------------------------------------------------------------------------------
// Buttons
// ---------------------------------------------------------------------------------------------

/// What stands before the colon in the data of a canteen's button.
pub open spec fn mensa_command(only_mensa_upd: bool) -> Seq<char> {
    if only_mensa_upd {
        "m_upd"@
    } else {
        "m_regist"@
    }
}

/// A keyboard with one button for every canteen, in the order of the list. Each stands in a row of
/// its own.
pub fn make_mensa_keyboard(mensen: &Vec<(String, u8)>, only_mensa_upd: bool) -> (r: Vec<
    InlineButton,
>)
    ensures
        r@.len() == mensen@.len(),
        forall|i: int|
            0 <= i < mensen@.len() ==> (#[trigger] r@[i]).text@ == mensen@[i].0@ && r@[i].data@
                == mensa_command(only_mensa_upd) + ":"@ + mensen@[i].0@,
{
    let mut keyboard: Vec<InlineButton> = Vec::new();
    for i in 0..mensen.len()
        invariant
            keyboard@.len() == i,
            forall|j: int|
                0 <= j < i ==> (#[trigger] keyboard@[j]).text@ == mensen@[j].0@
                    && keyboard@[j].data@ == mensa_command(only_mensa_upd) + ":"@ + mensen@[j].0@,
    {
        let mut data = if only_mensa_upd {
            owned("m_upd")
        } else {
            owned("m_regist")
        };
        data.append(":");
        data.append(mensen[i].0.as_str());
        keyboard.push(InlineButton { text: owned(mensen[i].0.as_str()), data });
    }
    keyboard
}

/// What is seen of some buttons.
pub open spec fn button_views(buttons: Seq<InlineButton>) -> Seq<(Seq<char>, Seq<char>)> {
    buttons.map_values(|b: InlineButton| (b.text@, b.data@))
}

/// The buttons for the days.
pub open spec fn day_buttons() -> Seq<(Seq<char>, Seq<char>)> {
    seq![("Heute"@, "day:0"@), ("Morgen"@, "day:1"@), ("Überm."@, "day:2"@)]
}

/// The buttons for the days. They stand in one row.
pub fn make_days_keyboard() -> (r: Vec<InlineButton>)
    ensures
        button_views(r@) == day_buttons(),
{
    vec![
        InlineButton { text: owned("Heute"), data: owned("day:0") },
        InlineButton { text: owned("Morgen"), data: owned("day:1") },
        InlineButton { text: owned("Überm."), data: owned("day:2") },
    ]
}

/// The number of the first canteen of a list with this name, if there is one.
pub open spec fn id_by_name(list: Seq<(Seq<char>, u8)>, name: Seq<char>) -> Option<u8>
    decreases list.len(),
{
    if list.len() == 0 {
        None
    } else if list[0].0 == name {
        Some(list[0].1)
    } else {
        id_by_name(list.skip(1), name)
    }
}

fn find_mensa(mensen: &Vec<(String, u8)>, name: &str) -> (r: Option<u8>)
    ensures
        r == id_by_name(mensa_views(mensen@), name@),
{
    let ghost list = mensa_views(mensen@);
    let mut i: usize = 0;
    assert(list.skip(0) == list);
    while i < mensen.len()
        invariant
            i <= mensen@.len(),
            list == mensa_views(mensen@),
            id_by_name(list.skip(i as int), name@) == id_by_name(list, name@),
        decreases mensen.len() - i,
    {
        assert(list.skip(i as int)[0] == (mensen@[i as int].0@, mensen@[i as int].1));
        if same_text(mensen[i].0.as_str(), name) {
            return Some(mensen[i].1);
        }
        assert(list.skip(i as int).skip(1) == list.skip(i + 1));
        i += 1;
    }
    assert(list.skip(i as int).len() == 0);
    None
}

/// The welcome to a chat that picked a canteen.
pub open spec fn welcome_text(mensa: Seq<char>) -> Seq<char> {
    "Plan der "@ + bold_text(mensa)
        + " wird ab jetzt automatisch an Wochentagen *06:00 Uhr* gesendet\\.\n\nÄndern mit\n/mensa, bzw\\.\n/uhrzeit \\[Zeit\\]"@
}

/// What a pressed button leads to, by its data. `None` if the bot does not know such a button.
pub open spec fn callback_actions(
    data: Seq<char>,
    chat_id: i64,
    registration: Option<RegistrationEntry>,
    mensen: Seq<(Seq<char>, u8)>,
    descriptions: Seq<char>,
) -> Option<Seq<ActionView>> {
    match cut(data, ':') {
        None => None,
        Some((cmd, arg)) => if cmd == "m_upd"@ {
            match id_by_name(mensen, arg) {
                Some(mensa_id) => Some(
                    seq![
                        ActionView::EditPressed {
                            text: "Gewählte Mensa: "@ + bold_text(arg),
                            markdown: true,
                        },
                        ActionView::SendMeals { days_forward: 0, mensa_id },
                        ActionView::Queue(other_mensa(chat_id, mensa_id)),
                    ],
                ),
                None => None,
            }
        } else if cmd == "m_regist"@ {
            match id_by_name(mensen, arg) {
                Some(mensa_id) => Some(
                    seq![
                        ActionView::EditPressed {
                            text: descriptions
                                + "\n\nWenn /heute oder /morgen kein Wochentag ist, wird der Plan für Montag angezeigt."@,
                            markdown: false,
                        },
                        ActionView::Send {
                            text: welcome_text(arg),
                            markdown: true,
                            buttons: Buttons::Nothing,
                        },
                        ActionView::SendMeals { days_forward: 0, mensa_id },
                        ActionView::Queue(first_registration(chat_id, mensa_id)),
                    ],
                ),
                None => None,
            }
        } else if cmd == "day"@ {
            match registration {
                Some(entry) => if is_day(arg) {
                    Some(
                        removal(entry.callback_id) + seq![
                            ActionView::RemovePressedButtons,
                            ActionView::SendMeals {
                                days_forward: signed_value(arg) as i64,
                                mensa_id: entry.mensa_id,
                            },
                        ],
                    )
                } else {
                    None
                },
                None => Some(seq![plain(NO_DB_MSG@)]),
            }
        } else {
            None
        },
    }
}

fn mensa_updated(chat_id: i64, mensa: &str, mensa_id: u8) -> (r: Vec<Action>)
    ensures
        views(r@) == seq![
            ActionView::EditPressed {
                text: "Gewählte Mensa: "@ + bold_text(mensa@),
                markdown: true,
            },
            ActionView::SendMeals { days_forward: 0, mensa_id },
            ActionView::Queue(other_mensa(chat_id, mensa_id)),
        ],
{
    let mut text = owned("Gewählte Mensa: ");
    text.append(bold(mensa).as_str());
    vec![
        Action::EditPressed { text, markdown: true },
        Action::SendMeals { days_forward: 0, mensa_id },
        Action::Queue(
            JobHandlerTask {
                job_type: JobType::UpdateRegistration,
                chat_id: Some(chat_id),
                mensa_id: Some(mensa_id),
                hour: None,
                minute: None,
                callback_id: None,
            },
        ),
    ]
}

fn mensa_registered(chat_id: i64, mensa: &str, mensa_id: u8, descriptions: &str) -> (r: Vec<Action>)
    ensures
        views(r@) == seq![
            ActionView::EditPressed {
                text: descriptions@
                    + "\n\nWenn /heute oder /morgen kein Wochentag ist, wird der Plan für Montag angezeigt."@,
                markdown: false,
            },
            ActionView::Send {
                text: welcome_text(mensa@),
                markdown: true,
                buttons: Buttons::Nothing,
            },
            ActionView::SendMeals { days_forward: 0, mensa_id },
            ActionView::Queue(first_registration(chat_id, mensa_id)),
        ],
{
    let mut commands = owned(descriptions);
    commands.append(
        "\n\nWenn /heute oder /morgen kein Wochentag ist, wird der Plan für Montag angezeigt.",
    );
    let mut welcome = owned("Plan der ");
    welcome.append(bold(mensa).as_str());
    welcome.append(
        " wird ab jetzt automatisch an Wochentagen *06:00 Uhr* gesendet\\.\n\nÄndern mit\n/mensa, bzw\\.\n/uhrzeit \\[Zeit\\]",
    );
    vec![
        Action::EditPressed { text: commands, markdown: false },
        Action::Send { text: welcome, markdown: true, buttons: Buttons::Nothing },
        Action::SendMeals { days_forward: 0, mensa_id },
        Action::Queue(
            JobHandlerTask {
                job_type: JobType::Register,
                chat_id: Some(chat_id),
                mensa_id: Some(mensa_id),
                hour: Some(6),
                minute: Some(0),
                callback_id: None,
            },
        ),
    ]
}

fn day_pressed(arg: &str, entry: &RegistrationEntry) -> (r: Option<Vec<Action>>)
    ensures
        if is_day(arg@) {
            r matches Some(actions) && views(actions@) == removal(entry.callback_id) + seq![
                ActionView::RemovePressedButtons,
                ActionView::SendMeals {
                    days_forward: signed_value(arg@) as i64,
                    mensa_id: entry.mensa_id,
                },
            ]
        } else {
            r is None
        },
{
    match parse_day(arg) {
        Some(days_forward) => {
            let mut r: Vec<Action> = Vec::new();
            push_removal(&mut r, entry.callback_id);
            let ghost before = r@;
            r.push(Action::RemovePressedButtons);
            r.push(Action::SendMeals { days_forward, mensa_id: entry.mensa_id });
            assert(views(r@) == views(before) + seq![
                ActionView::RemovePressedButtons,
                ActionView::SendMeals { days_forward, mensa_id: entry.mensa_id },
            ]);
            Some(r)
        },
        None => None,
    }
}

fn button_pressed(
    data: &str,
    chat_id: i64,
    registration: Option<RegistrationEntry>,
    mensen: &Vec<(String, u8)>,
    descriptions: &str,
) -> (r: Option<Vec<Action>>)
    ensures
        match callback_actions(
            data@,
            chat_id,
            registration,
            mensa_views(mensen@),
            descriptions@,
        ) {
            Some(expected) => r matches Some(actions) && views(actions@) == expected,
            None => r is None,
        },
{
    match split_once(data, ':') {
        None => None,
        Some((cmd, arg)) => if same_text(cmd.as_str(), "m_upd") {
            match find_mensa(mensen, arg.as_str()) {
                Some(mensa_id) => Some(mensa_updated(chat_id, arg.as_str(), mensa_id)),
                None => None,
            }
        } else if same_text(cmd.as_str(), "m_regist") {
            match find_mensa(mensen, arg.as_str()) {
                Some(mensa_id) => Some(
                    mensa_registered(chat_id, arg.as_str(), mensa_id, descriptions),
                ),
                None => None,
            }
        } else if same_text(cmd.as_str(), "day") {
            match registration {
                Some(entry) => day_pressed(arg.as_str(), &entry),
                None => {
                    let r = vec![send_plain(NO_DB_MSG)];
                    assert(views(r@) == seq![plain(NO_DB_MSG@)]);
                    Some(r)
                },
            }
        } else {
            None
        },
    }
}

/// Answers a pressed button: it is acknowledged, and if the message that it belongs to is still
/// there, what its data asks for is done. `None` if the bot does not know such a button.
pub fn callback_handler(
    data: Option<&str>,
    message_is_there: bool,
    chat_id: i64,
    registration: Option<RegistrationEntry>,
    mensen: &Vec<(String, u8)>,
    descriptions: &str,
) -> (r: Option<Vec<Action>>)
    ensures
        match data {
            None => r matches Some(actions) && actions@.len() == 0,
            Some(data) => if message_is_there {
                match callback_actions(
                    data@,
                    chat_id,
                    registration,
                    mensa_views(mensen@),
                    descriptions@,
                ) {
                    Some(expected) => r matches Some(actions) && views(actions@) == seq![
                        ActionView::AnswerCallback,
                    ] + expected,
                    None => r is None,
                }
            } else {
                r matches Some(actions) && views(actions@) == seq![ActionView::AnswerCallback]
            },
        },
{
    match data {
        None => Some(Vec::new()),
        Some(data) => if message_is_there {
            match button_pressed(data, chat_id, registration, mensen, descriptions) {
                Some(mut actions) => {
                    let ghost expected = views(actions@);
                    actions.insert(0, Action::AnswerCallback);
                    assert(views(actions@) == seq![ActionView::AnswerCallback] + expected);
                    Some(actions)
                },
                None => None,
            }
        } else {
            Some(vec![Action::AnswerCallback])
        },
    }
}

// ---------------------------------------------------------------------------------------------
// Laws
// ---------------------------------------------------------------------------------------------

/// A day's button shows a plan and has the message with it remembered. The buttons of the canteens
/// show one too, and have nothing remembered.
pub proof fn law_only_day_buttons_are_remembered(
    i: int,
    name: Seq<char>,
    only_mensa_upd: bool,
    chat_id: i64,
    message_id: i32,
)
    requires
        0 <= i < day_buttons().len(),
    ensures
        pressed_actions(day_buttons()[i].1, chat_id, message_id) == remembered(chat_id, message_id),
        pressed_actions(mensa_command(only_mensa_upd) + ":"@ + name, chat_id, message_id)
            == Seq::<ActionView>::empty(),
{
    reveal_strlit("day:0");
    reveal_strlit("day:1");
    reveal_strlit("day:2");
    reveal_strlit("day");
    reveal_strlit("m_upd");
    reveal_strlit("m_regist");
    reveal_strlit(":");
    let data = day_buttons()[i].1;
    lemma_first_of(data, ':', 3);
    assert(data.take(3) == "day"@);
    let cmd = mensa_command(only_mensa_upd);
    let other = cmd + ":"@ + name;
    lemma_first_of(other, ':', cmd.len() as int);
    assert(other.take(cmd.len() as int) == cmd);
    assert("m_upd"@.len() == 5 && "m_regist"@.len() == 8 && "day"@.len() == 3);
}

/// Each of the buttons for the days is understood: the first leads to the plan for today, the second
/// to that for tomorrow, and the third to that for the day after.
pub proof fn law_day_buttons(
    i: int,
    chat_id: i64,
    entry: RegistrationEntry,
    mensen: Seq<(Seq<char>, u8)>,
    descriptions: Seq<char>,
)
    requires
        0 <= i < day_buttons().len(),
    ensures
        callback_actions(
            day_buttons()[i].1,
            chat_id,
            Some(entry),
            mensen,
            descriptions,
        ) matches Some(actions) && actions.last() == (ActionView::SendMeals {
            days_forward: i as i64,
            mensa_id: entry.mensa_id,
        }),
{
    reveal_strlit("day:0");
    reveal_strlit("day:1");
    reveal_strlit("day:2");
    reveal_strlit("day");
    reveal_strlit("m_upd");
    reveal_strlit("m_regist");
    let data = day_buttons()[i].1;
    lemma_first_of(data, ':', 3);
    assert(data.take(3) == "day"@);
    assert("m_upd"@.len() == 5 && "m_regist"@.len() == 8);
    let arg = data.skip(4);
    assert(arg.len() == 1 && digit_value(arg[0]) == i);
    reveal_with_fuel(digits_value, 2);
    assert(arg.drop_last().len() == 0);
    assert(digits_value(arg) == i);
}

/// The buttons of a canteen are understood, whatever characters its name is made of, and lead to the
/// canteen that has this name in the list.
pub proof fn law_mensa_buttons(
    name: Seq<char>,
    only_mensa_upd: bool,
    chat_id: i64,
    registration: Option<RegistrationEntry>,
    mensen: Seq<(Seq<char>, u8)>,
    descriptions: Seq<char>,
)
    requires
        id_by_name(mensen, name) is Some,
    ensures
        callback_actions(
            mensa_command(only_mensa_upd) + ":"@ + name,
            chat_id,
            registration,
            mensen,
            descriptions,
        ) matches Some(actions) && actions.last() == ActionView::Queue(
            if only_mensa_upd {
                other_mensa(chat_id, id_by_name(mensen, name)->0)
            } else {
                first_registration(chat_id, id_by_name(mensen, name)->0)
            },
        ),
{
    reveal_strlit("m_upd");
    reveal_strlit("m_regist");
    reveal_strlit(":");
    let cmd = mensa_command(only_mensa_upd);
    let data = cmd + ":"@ + name;
    lemma_first_of(data, ':', cmd.len() as int);
    assert(data.take(cmd.len() as int) == cmd);
    assert(data.skip(cmd.len() as int + 1) == name);
    assert("m_upd"@.len() == 5 && "m_regist"@.len() == 8);
}

/// A chat that has not been entered is told so by every command but the one to start.
pub proof fn law_unknown_chat(cmd: Command, text: Seq<char>, chat_id: i64)
    requires
        cmd != Command::Start,
    ensures
        command_actions(Some(cmd), text, chat_id, None) == seq![plain(NO_DB_MSG@)],
{
}

} // verus!
