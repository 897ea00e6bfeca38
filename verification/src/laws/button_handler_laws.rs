//! What the button bot does when a button is pressed or a command comes in.
use crate::bot_command_helpers::{announcement, time_of};
use crate::button_bot::data_types::{
    Command, JobHandlerTask, JobType, RegistrationEntry, TimeParseError,
};
use crate::button_bot::handlers::{
    button_views, callback_actions, change_actions, command_actions, day_buttons, id_by_name,
    mensa_command, pressed_actions, remembered, removal, sent_actions, time_argument, views, Action,
    ActionView, Buttons,
};
use crate::laws::text_laws::{joined, law_parts_of_joined, law_read_signed};
use crate::lines::free_of;
use crate::markdown::bold_text;
use crate::shared_main::InlineButton;
use crate::text::{cut, dec, lemma_first_of};
use vstd::prelude::*;

verus! {

// ---------------------------------------------------------------------------------------------
// Actions
// ---------------------------------------------------------------------------------------------

/// What is said of an action is said of what it holds.
pub proof fn law_action_view(a: Action)
    ensures
        a matches Action::AnswerCallback ==> a@ == ActionView::AnswerCallback,
        a matches Action::Send { text, markdown, buttons } ==> (a@ matches ActionView::Send {
            text: said,
            markdown: m,
            buttons: b,
        } && said == text@ && m == markdown && b == buttons),
        a matches Action::SendMeals { days_forward, mensa_id } ==> (a@ matches ActionView::SendMeals {
            days_forward: d,
            mensa_id: id,
        } && d == days_forward && id == mensa_id),
        a matches Action::SendChange { mensa_id } ==> a@ == (ActionView::SendChange { mensa_id }),
        a matches Action::RemoveButtons { message_id } ==> a@ == (ActionView::RemoveButtons {
            message_id,
        }),
        a matches Action::RemovePressedButtons ==> a@ == ActionView::RemovePressedButtons,
        a matches Action::EditPressed { text, markdown } ==> (a@ matches ActionView::EditPressed {
            text: said,
            markdown: m,
        } && said == text@ && m == markdown),
        a matches Action::Queue(task) ==> a@ == ActionView::Queue(task),
        a matches Action::UpdateDb(task) ==> a@ == ActionView::UpdateDb(task),
{
}

/// What is said of a list of actions is said of each of them, in their order.
pub proof fn law_action_views(actions: Seq<Action>, buttons: Seq<InlineButton>)
    ensures
        views(actions).len() == actions.len(),
        forall|i: int| 0 <= i < actions.len() ==> #[trigger] views(actions)[i] == actions[i]@,
        button_views(buttons).len() == buttons.len(),
        forall|i: int|
            0 <= i < buttons.len() ==> (#[trigger] button_views(buttons)[i]).0 == buttons[i].text@
                && button_views(buttons)[i].1 == buttons[i].data@,
{
}

/// An order of a kind for a chat, with nothing else in it.
pub open spec fn bare(job_type: JobType, chat_id: i64) -> JobHandlerTask {
    JobHandlerTask {
        job_type,
        chat_id: Some(chat_id),
        mensa_id: None,
        hour: None,
        minute: None,
        callback_id: None,
    }
}

/// A text that is sent as it is comes without buttons.
pub open spec fn says(text: Seq<char>) -> ActionView {
    ActionView::Send { text, markdown: false, buttons: Buttons::Nothing }
}

// ---------------------------------------------------------------------------------------------
// Canteens by their names
// ---------------------------------------------------------------------------------------------

/// A name leads to the first canteen of the list that has it, and to none if and only if none has it.
pub proof fn law_named(list: Seq<(Seq<char>, u8)>, name: Seq<char>, i: int)
    requires
        0 <= i < list.len(),
    ensures
        (list[i].0 == name && forall|j: int| 0 <= j < i ==> (#[trigger] list[j]).0 != name)
            ==> id_by_name(list, name) == Some(list[i].1),
        id_by_name(list, name) is None ==> list[i].0 != name,
        id_by_name(list, name) matches Some(id) ==> list.contains((name, id)),
    decreases list.len(),
{
    if list[0].0 == name {
        assert(list[0] == (name, list[0].1));
    } else if list.len() == 1 {
        assert(id_by_name(list.skip(1), name) is None);
    } else {
        let rest = list.skip(1);
        let k: int = if i == 0 {
            0
        } else {
            i - 1
        };
        law_named(rest, name, k);
        assert forall|j: int| 0 <= j < rest.len() implies #[trigger] rest[j] == list[j + 1] by {
        }
        if id_by_name(list, name) is Some {
            let at = choose|at: int|
                0 <= at < rest.len() && rest[at] == (name, id_by_name(list, name)->0);
            assert(list[at + 1] == (name, id_by_name(list, name)->0));
        }
        if i > 0 && list[i].0 == name && forall|j: int| 0 <= j < i ==> (#[trigger] list[j]).0
            != name {
            assert forall|j: int| 0 <= j < k implies (#[trigger] rest[j]).0 != name by {
                assert(list[j + 1].0 != name);
            }
        }
    }
}

// ---------------------------------------------------------------------------------------------
// Pressed buttons
// ---------------------------------------------------------------------------------------------

/// Whether exactly one action of a list shows a plan, and that is `what`.
pub open spec fn shows_only(actions: Seq<ActionView>, what: ActionView) -> bool {
    exists|k: int|
        0 <= k < actions.len() && #[trigger] actions[k] == what && forall|i: int|
            0 <= i < actions.len() && i != k ==> !(#[trigger] actions[i] is SendMeals)
}

/// All that comes of a canteen's buttons, and in which order: the message with the button says what was
/// picked, today's plan of that canteen is shown, and the task scheduler gets the order.
pub proof fn law_button(
    name: Seq<char>,
    id: u8,
    chat_id: i64,
    registration: Option<RegistrationEntry>,
    mensen: Seq<(Seq<char>, u8)>,
    descriptions: Seq<char>,
)
    requires
        id_by_name(mensen, name) == Some(id),
    ensures
        callback_actions("m_upd:"@ + name, chat_id, registration, mensen, descriptions) == Some(
            seq![
                ActionView::EditPressed {
                    text: "Gewählte Mensa: *"@ + name + "*"@,
                    markdown: true,
                },
                ActionView::SendMeals { days_forward: 0, mensa_id: id },
                ActionView::Queue(
                    JobHandlerTask {
                        mensa_id: Some(id),
                        ..bare(JobType::UpdateRegistration, chat_id)
                    },
                ),
            ],
        ),
        callback_actions("m_regist:"@ + name, chat_id, registration, mensen, descriptions) == Some(
            seq![
                ActionView::EditPressed {
                    text: descriptions
                        + "\n\nWenn /heute oder /morgen kein Wochentag ist, wird der Plan für Montag angezeigt."@,
                    markdown: false,
                },
                ActionView::Send {
                    text: "Plan der *"@ + name
                        + "* wird ab jetzt automatisch an Wochentagen *06:00 Uhr* gesendet\\.\n\nÄndern mit\n/mensa, bzw\\.\n/uhrzeit \\[Zeit\\]"@,
                    markdown: true,
                    buttons: Buttons::Nothing,
                },
                ActionView::SendMeals { days_forward: 0, mensa_id: id },
                ActionView::Queue(
                    JobHandlerTask {
                        mensa_id: Some(id),
                        hour: Some(6),
                        minute: Some(0),
                        ..bare(JobType::Register, chat_id)
                    },
                ),
            ],
        ),
        mensa_command(true) + ":"@ + name == "m_upd:"@ + name,
        mensa_command(false) + ":"@ + name == "m_regist:"@ + name,
{
    reveal_strlit("m_regist");
    reveal_strlit("m_upd");
    reveal_strlit(":");
    reveal_strlit("m_regist:");
    reveal_strlit("m_upd:");
    assert("m_regist"@ + ":"@ == "m_regist:"@);
    assert("m_upd"@ + ":"@ == "m_upd:"@);
    let update = "m_upd:"@ + name;
    let register = "m_regist:"@ + name;
    lemma_first_of(update, ':', 5);
    assert(update.take(5) == "m_upd"@);
    assert(update.skip(6) == name);
    lemma_first_of(register, ':', 8);
    assert(register.take(8) == "m_regist"@);
    assert(register.skip(9) == name);
    assert("m_regist"@.len() == 8 && "m_upd"@.len() == 5);
    lemma_button_texts(name);
}

proof fn lemma_button_texts(name: Seq<char>)
    ensures
        "Gewählte Mensa: "@ + bold_text(name) == "Gewählte Mensa: *"@ + name + "*"@,
        crate::button_bot::handlers::welcome_text(name) == "Plan der *"@ + name
            + "* wird ab jetzt automatisch an Wochentagen *06:00 Uhr* gesendet\\.\n\nÄndern mit\n/mensa, bzw\\.\n/uhrzeit \\[Zeit\\]"@,
{
    reveal_strlit("Gewählte Mensa: ");
    reveal_strlit("Gewählte Mensa: *");
    reveal_strlit("*");
    reveal_strlit("Plan der ");
    reveal_strlit("Plan der *");
    reveal_strlit(
        " wird ab jetzt automatisch an Wochentagen *06:00 Uhr* gesendet\\.\n\nÄndern mit\n/mensa, bzw\\.\n/uhrzeit \\[Zeit\\]",
    );
    reveal_strlit(
        "* wird ab jetzt automatisch an Wochentagen *06:00 Uhr* gesendet\\.\n\nÄndern mit\n/mensa, bzw\\.\n/uhrzeit \\[Zeit\\]",
    );
    assert("Gewählte Mensa: "@ + bold_text(name) == "Gewählte Mensa: *"@ + name + "*"@);
}

/// Whatever a chat is registered for, pressing the button of a canteen shows one plan: today's plan of
/// that canteen.
pub proof fn law_button_shows_its_canteen(
    name: Seq<char>,
    id: u8,
    only_mensa_upd: bool,
    chat_id: i64,
    registration: Option<RegistrationEntry>,
    mensen: Seq<(Seq<char>, u8)>,
    descriptions: Seq<char>,
)
    requires
        id_by_name(mensen, name) == Some(id),
    ensures
        callback_actions(
            mensa_command(only_mensa_upd) + ":"@ + name,
            chat_id,
            registration,
            mensen,
            descriptions,
        ) matches Some(actions) && shows_only(
            actions,
            ActionView::SendMeals { days_forward: 0, mensa_id: id },
        ),
{
    law_button(name, id, chat_id, registration, mensen, descriptions);
    let actions = callback_actions(
        mensa_command(only_mensa_upd) + ":"@ + name,
        chat_id,
        registration,
        mensen,
        descriptions,
    )->0;
    let k: int = if only_mensa_upd {
        1
    } else {
        2
    };
    assert(actions[k] == (ActionView::SendMeals { days_forward: 0, mensa_id: id }));
}

/// The buttons of the days: a number up to two leads to the plan of the canteen that the chat is
/// registered for, as many days ahead. The buttons that were pressed go, and so do those that the chat
/// still has. A larger number is not understood.
pub proof fn law_days(
    chat_id: i64,
    entry: RegistrationEntry,
    mensen: Seq<(Seq<char>, u8)>,
    descriptions: Seq<char>,
    days: nat,
)
    ensures
        days > 2 ==> callback_actions(
            "day:"@ + dec(days),
            chat_id,
            Some(entry),
            mensen,
            descriptions,
        ) is None,
        days <= 2 ==> ({
            let pressed = callback_actions(
                "day:"@ + dec(days),
                chat_id,
                Some(entry),
                mensen,
                descriptions,
            );
            let shown = seq![
                ActionView::RemovePressedButtons,
                ActionView::SendMeals { days_forward: days as i64, mensa_id: entry.mensa_id },
            ];
            match entry.callback_id {
                Some(message_id) => pressed == Some(
                    seq![ActionView::RemoveButtons { message_id }] + shown,
                ),
                None => pressed == Some(shown),
            }
        }),
        callback_actions("day:"@ + dec(days), chat_id, None, mensen, descriptions) == Some(
            seq![says("Bitte zuerst /start ausführen"@)],
        ),
        pressed_actions("day:"@ + dec(days), chat_id, 0) == remembered(chat_id, 0),
{
    let data = "day:"@ + dec(days);
    reveal_strlit("day:");
    reveal_strlit("day");
    reveal_strlit("m_regist");
    reveal_strlit("m_upd");
    assert("day"@.len() == 3 && "m_regist"@.len() == 8 && "m_upd"@.len() == 5);
    lemma_first_of(data, ':', 3);
    assert(data.take(3) == "day"@);
    assert(data.skip(4) == dec(days));
    law_read_signed(days, 2);
    let shown = seq![
        ActionView::RemovePressedButtons,
        ActionView::SendMeals { days_forward: days as i64, mensa_id: entry.mensa_id },
    ];
    assert(Seq::<ActionView>::empty() + shown == shown);
}

/// The buttons below a plan: one for today, one for tomorrow and one for the day after tomorrow.
pub proof fn law_day_row()
    ensures
        day_buttons().len() == 3,
        day_buttons()[0].0 == "Heute"@ && day_buttons()[0].1 == "day:"@ + dec(0),
        day_buttons()[1].0 == "Morgen"@ && day_buttons()[1].1 == "day:"@ + dec(1),
        day_buttons()[2].0 == "Überm."@ && day_buttons()[2].1 == "day:"@ + dec(2),
{
    reveal_strlit("day:");
    reveal_strlit("day:0");
    reveal_strlit("day:1");
    reveal_strlit("day:2");
    reveal_with_fuel(dec, 2);
    assert("day:0"@ == "day:"@ + dec(0));
    assert("day:1"@ == "day:"@ + dec(1));
    assert("day:2"@ == "day:"@ + dec(2));
}

/// A button whose data has no colon, or none of the three commands before it, is not understood. Nor is
/// one that names no canteen.
pub proof fn law_strange_buttons(
    data: Seq<char>,
    chat_id: i64,
    registration: Option<RegistrationEntry>,
    mensen: Seq<(Seq<char>, u8)>,
    descriptions: Seq<char>,
)
    ensures
        callback_actions(data, chat_id, registration, mensen, descriptions) is Some ==> {
            &&& cut(data, ':') matches Some((cmd, arg))
            &&& cmd == "m_upd"@ || cmd == "m_regist"@ || cmd == "day"@
            &&& cmd != "day"@ ==> id_by_name(mensen, arg) is Some
        },
{
}

// ---------------------------------------------------------------------------------------------
// Buttons that are remembered
// ---------------------------------------------------------------------------------------------

/// The order by which the message with the buttons is remembered.
pub open spec fn keeps(chat_id: i64, message_id: i32) -> JobHandlerTask {
    JobHandlerTask {
        callback_id: Some(message_id),
        ..bare(JobType::InsertCallbackMessageId, chat_id)
    }
}

/// A plan that was sent is remembered for its buttons, in the database and by the task scheduler, and
/// the buttons that were remembered before are removed.
pub proof fn law_sent_plan(chat_id: i64, entry: RegistrationEntry, message_id: i32)
    ensures
        remembered(chat_id, message_id) == seq![
            ActionView::UpdateDb(keeps(chat_id, message_id)),
            ActionView::Queue(keeps(chat_id, message_id)),
        ],
        entry.callback_id matches Some(before) ==> sent_actions(chat_id, entry, message_id) == seq![
            ActionView::RemoveButtons { message_id: before },
            ActionView::UpdateDb(keeps(chat_id, message_id)),
            ActionView::Queue(keeps(chat_id, message_id)),
        ],
        entry.callback_id is None ==> sent_actions(chat_id, entry, message_id) == seq![
            ActionView::UpdateDb(keeps(chat_id, message_id)),
            ActionView::Queue(keeps(chat_id, message_id)),
        ],
        entry.callback_id matches Some(before) ==> change_actions(entry) == seq![
            ActionView::RemoveButtons { message_id: before },
            ActionView::SendChange { mensa_id: entry.mensa_id },
        ],
        entry.callback_id is None ==> change_actions(entry) == seq![
            ActionView::SendChange { mensa_id: entry.mensa_id },
        ],
{
    let empty = Seq::<ActionView>::empty();
    let kept = remembered(chat_id, message_id);
    assert(empty + kept == kept);
    let change = seq![ActionView::SendChange { mensa_id: entry.mensa_id }];
    assert(empty + change == change);
    if let Some(before) = entry.callback_id {
        let first = seq![ActionView::RemoveButtons { message_id: before }];
        assert(first + kept == seq![
            ActionView::RemoveButtons { message_id: before },
            ActionView::UpdateDb(keeps(chat_id, message_id)),
            ActionView::Queue(keeps(chat_id, message_id)),
        ]);
        assert(first + change == seq![
            ActionView::RemoveButtons { message_id: before },
            ActionView::SendChange { mensa_id: entry.mensa_id },
        ]);
    }
}

/// Of the plans that a pressed button brings, those of the day buttons are remembered.
pub proof fn law_pressed(cmd: Seq<char>, arg: Seq<char>, chat_id: i64, message_id: i32)
    requires
        free_of(cmd, ':'),
    ensures
        pressed_actions(cmd + ":"@ + arg, chat_id, message_id) == if cmd == "day"@ {
            seq![
                ActionView::UpdateDb(keeps(chat_id, message_id)),
                ActionView::Queue(keeps(chat_id, message_id)),
            ]
        } else {
            Seq::empty()
        },
        pressed_actions(cmd, chat_id, message_id) == Seq::<ActionView>::empty(),
{
    reveal_strlit(":");
    let data = cmd + ":"@ + arg;
    assert(forall|i: int| 0 <= i < cmd.len() ==> #[trigger] cmd[i] != ':');
    lemma_first_of(data, ':', cmd.len() as int);
    assert(data.take(cmd.len() as int) == cmd);
    lemma_first_of(cmd, ':', cmd.len() as int);
}

// ---------------------------------------------------------------------------------------------
// Commands
// ---------------------------------------------------------------------------------------------

/// The second word of a text is the time that is asked for. Without a second word there is none.
pub proof fn law_time_argument(words: Seq<Seq<char>>)
    requires
        words.len() > 0,
        forall|i: int| 0 <= i < words.len() ==> free_of(#[trigger] words[i], ' '),
    ensures
        words.len() == 1 ==> time_argument(joined(words, ' ')) == Err::<
            (u32, u32),
            TimeParseError,
        >(TimeParseError::NoTimePassed),
        words.len() > 1 && time_of(words[1]) is None ==> time_argument(joined(words, ' ')) == Err::<
            (u32, u32),
            TimeParseError,
        >(TimeParseError::InvalidTimePassed),
        words.len() > 1 && time_of(words[1]) is Some ==> time_argument(joined(words, ' ')) == Ok::<
            (u32, u32),
            TimeParseError,
        >(time_of(words[1])->0),
{
    law_parts_of_joined(words, ' ');
}

/// What comes of a command of a chat that is entered.
pub proof fn law_commands(text: Seq<char>, chat_id: i64, entry: RegistrationEntry)
    ensures
        command_actions(Some(Command::Heute), text, chat_id, Some(entry)) == removal(
            entry.callback_id,
        ).push(ActionView::SendMeals { days_forward: 0, mensa_id: entry.mensa_id }),
        command_actions(Some(Command::Morgen), text, chat_id, Some(entry)) == removal(
            entry.callback_id,
        ).push(ActionView::SendMeals { days_forward: 1, mensa_id: entry.mensa_id }),
        command_actions(Some(Command::Uebermorgen), text, chat_id, Some(entry)) == removal(
            entry.callback_id,
        ).push(ActionView::SendMeals { days_forward: 2, mensa_id: entry.mensa_id }),
        command_actions(Some(Command::Mensa), text, chat_id, Some(entry)) == seq![
            ActionView::Send {
                text: "Mensa auswählen:"@,
                markdown: false,
                buttons: Buttons::UpdateMensa,
            },
        ],
        entry.job_uuid is Some ==> command_actions(
            Some(Command::Subscribe),
            text,
            chat_id,
            Some(entry),
        ) == seq![
            ActionView::Queue(bare(JobType::QueryRegistration, chat_id)),
            says("Automatische Nachrichten sind schon aktiviert."@),
        ],
        entry.job_uuid is None ==> command_actions(
            Some(Command::Subscribe),
            text,
            chat_id,
            Some(entry),
        ) == seq![
            ActionView::Queue(bare(JobType::QueryRegistration, chat_id)),
            says(
                "Plan wird ab jetzt automatisch an Wochentagen 06:00 Uhr gesendet.\n\nÄndern mit /uhrzeit [Zeit]"@,
            ),
            ActionView::Queue(
                JobHandlerTask {
                    hour: Some(6),
                    minute: Some(0),
                    ..bare(JobType::UpdateRegistration, chat_id)
                },
            ),
        ],
        entry.job_uuid is None ==> command_actions(
            Some(Command::Unsubscribe),
            text,
            chat_id,
            Some(entry),
        ) == seq![says("Automatische Nachrichten waren bereits deaktiviert."@)],
        entry.job_uuid is Some ==> command_actions(
            Some(Command::Unsubscribe),
            text,
            chat_id,
            Some(entry),
        ) == seq![
            says("Plan wird nicht mehr automatisch gesendet."@),
            ActionView::Queue(bare(JobType::Unregister, chat_id)),
        ],
        removal(entry.callback_id).len() <= 1,
        entry.callback_id is None ==> removal(entry.callback_id).len() == 0,
        entry.callback_id matches Some(message_id) ==> removal(entry.callback_id) == seq![
            ActionView::RemoveButtons { message_id },
        ],
{
}

/// What comes of the command that sets the time: the time is announced and given to the task scheduler,
/// or the chat is told what is wrong with it.
pub proof fn law_time_command(text: Seq<char>, chat_id: i64, entry: RegistrationEntry)
    ensures
        ({
            let actions = command_actions(Some(Command::Uhrzeit), text, chat_id, Some(entry));
            match time_argument(text) {
                Ok((hour, minute)) => actions == seq![
                    says(announcement(hour as nat, minute as nat)),
                    ActionView::Queue(
                        JobHandlerTask {
                            hour: Some(hour),
                            minute: Some(minute),
                            ..bare(JobType::UpdateRegistration, chat_id)
                        },
                    ),
                ],
                Err(TimeParseError::NoTimePassed) => actions == seq![
                    says("Bitte Zeit angeben\n/uhrzeit [Zeit]"@),
                ],
                Err(TimeParseError::InvalidTimePassed) => actions == seq![
                    says("Eingegebene Zeit ist ungültig."@),
                ],
            }
        }),
{
}

/// What comes of the start, of what is no command, and of any other command of a chat that has not been
/// entered.
pub proof fn law_other_commands(
    cmd: Command,
    text: Seq<char>,
    chat_id: i64,
    registration: Option<RegistrationEntry>,
)
    ensures
        command_actions(None, text, chat_id, registration) == seq![says("Ungültiger Befehl"@)],
        command_actions(Some(Command::Start), text, chat_id, registration) == seq![
            ActionView::Send {
                text: "Mensa auswählen:"@,
                markdown: false,
                buttons: Buttons::RegisterMensa,
            },
        ],
        cmd != Command::Start ==> command_actions(Some(cmd), text, chat_id, None) == seq![
            says("Bitte zuerst /start ausführen"@),
        ],
{
}

} // verus!
