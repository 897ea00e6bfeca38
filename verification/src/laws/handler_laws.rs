//! What the bot does when a button is pressed or a command comes in.
use crate::actions::{plain, views, Action, ActionView, Markup};
use crate::bot_command_handlers::{
    allergene_actions, argument_of, day_actions, handler_of, no_time_to_set, replied_actions,
    senddiff_actions, started_actions, subscribe_actions, unsubscribe_actions, Handler,
};
use crate::bot_command_helpers::mensa_choice;
use crate::data_types::{
    Command, DialogueState, DisplayPreferences, JobHandlerTask, JobType, MensaKeyboardAction,
    ParsedTimeAndLastMsgFromDialleougueue, RegistrationEntry, TimeParseError,
};
use crate::laws::text_laws::law_read_signed;
use crate::ordered::ascending_u32;
use crate::shared_main::{
    are_mensa_buttons, callback_actions, is_day, is_mensa_named, law_mensa_data,
    law_mensa_found_by_name, mensa_data, mensa_named, registration_of, InlineButton,
};
use crate::text::{
    cut, dec, is_digit, lemma_digits_value_bounds, lemma_first_of, signed_value, trimmed,
};
use vstd::prelude::*;

verus! {

// ---------------------------------------------------------------------------------------------
// Actions
// ---------------------------------------------------------------------------------------------

/// What is said of an action is said of what it holds.
pub proof fn law_action_view(a: Action)
    ensures
        a matches Action::AnswerCallback ==> a@ == ActionView::AnswerCallback,
        a matches Action::Send { text, markdown, markup } ==> (a@ matches ActionView::Send {
            text: said,
            markdown: m,
            markup: k,
        } && said == text@ && m == markdown && k == markup),
        a matches Action::SendMeals { days_forward, mensa_id, markup } ==> (
        a@ matches ActionView::SendMeals { days_forward: d, mensa_id: id, markup: k } && d
            == days_forward && id == mensa_id && k == markup),
        a matches Action::SendBloatImage ==> a@ == ActionView::SendBloatImage,
        a matches Action::EditPressed { text, markdown } ==> (a@ matches ActionView::EditPressed {
            text: said,
            markdown: m,
        } && said == text@ && m == markdown),
        a matches Action::Queue(task) ==> a@ == ActionView::Queue(task),
        a matches Action::UpdateDb(task) ==> a@ == ActionView::UpdateDb(task),
        a matches Action::StoreAllergens(shown) ==> a@ == ActionView::StoreAllergens(shown),
        a matches Action::StorePreferences(all) ==> a@ == ActionView::StorePreferences(all),
        a matches Action::UpdateDialogue(state) ==> a@ == ActionView::UpdateDialogue(state),
        a matches Action::ExitDialogue ==> a@ == ActionView::ExitDialogue,
{
}

/// What is said of a list of actions is said of each of them, in their order.
pub proof fn law_action_views(actions: Seq<Action>)
    ensures
        views(actions).len() == actions.len(),
        forall|i: int| 0 <= i < actions.len() ==> #[trigger] views(actions)[i] == actions[i]@,
{
}

/// A text that is sent as it is comes without a keyboard.
pub proof fn law_plain(text: Seq<char>)
    ensures
        plain(text) == (ActionView::Send { text, markdown: false, markup: Markup::Plain }),
{
}

// ---------------------------------------------------------------------------------------------
// Canteens by their names
// ---------------------------------------------------------------------------------------------

proof fn lemma_smallest(mensen: Map<u32, String>, name: Seq<char>, id: u32)
    requires
        mensen.dom().contains(id),
        mensen[id]@ == name,
    ensures
        exists|smallest: u32| is_mensa_named(mensen, name, smallest),
    decreases id,
{
    if exists|other: u32| #[trigger]
        mensen.dom().contains(other) && mensen[other]@ == name && other < id {
        let other = choose|other: u32| #[trigger]
            mensen.dom().contains(other) && mensen[other]@ == name && other < id;
        lemma_smallest(mensen, name, other);
    } else {
        assert(is_mensa_named(mensen, name, id));
    }
}

/// A name leads to the canteen with the smallest number among those that have it, and to none if and
/// only if no canteen has it.
pub proof fn law_named(mensen: Map<u32, String>, name: Seq<char>, id: u32)
    requires
        mensen.dom().contains(id),
    ensures
        mensen[id]@ == name ==> (mensa_named(mensen, name) matches Some(found) && found <= id),
        mensa_named(mensen, name) matches Some(found) ==> mensen.dom().contains(found)
            && mensen[found]@ == name,
        mensa_named(mensen, name) is None ==> mensen[id]@ != name,
{
    if mensen[id]@ == name {
        lemma_smallest(mensen, name, id);
    }
}

/// The data of a canteen's button is its command, a colon and the name of the canteen.
pub proof fn law_button_data(name: Seq<char>)
    ensures
        mensa_data(MensaKeyboardAction::Register, name) == "m_regist:"@ + name,
        mensa_data(MensaKeyboardAction::Update, name) == "m_upd:"@ + name,
        mensa_data(MensaKeyboardAction::DisplayOnce, name) == "m_disp:"@ + name,
{
    reveal_strlit("m_regist");
    reveal_strlit("m_upd");
    reveal_strlit("m_disp");
    reveal_strlit(":");
    reveal_strlit("m_regist:");
    reveal_strlit("m_upd:");
    reveal_strlit("m_disp:");
    assert("m_regist"@ + ":"@ == "m_regist:"@);
    assert("m_upd"@ + ":"@ == "m_upd:"@);
    assert("m_disp"@ + ":"@ == "m_disp:"@);
}

// ---------------------------------------------------------------------------------------------
// Pressed buttons
// ---------------------------------------------------------------------------------------------

/// Whether exactly one action of a list shows a plan, and that is `what`.
pub open spec fn shows_only(actions: Seq<ActionView>, what: ActionView) -> bool {
    exists|k: int|
        0 <= k < actions.len() && #[trigger] actions[k] == what && forall|i: int|
            0 <= i < actions.len() && i != k ==> !(#[trigger] actions[i] is SendMeals)
}

/// Whether no two canteens have one name.
pub open spec fn names_differ(mensen: Map<u32, String>) -> bool {
    forall|a: u32, b: u32| #[trigger]
        mensen.dom().contains(a) && #[trigger] mensen.dom().contains(b) && mensen[a]@
            == mensen[b]@ ==> a == b
}

/// Whatever a chat is registered for, pressing the button of a canteen shows one plan: today's plan of
/// that canteen.
pub proof fn law_button_shows_its_canteen(
    mensen: Map<u32, String>,
    id: u32,
    action: MensaKeyboardAction,
    chat_id: i64,
    registration: Option<RegistrationEntry>,
    descriptions: Seq<char>,
)
    requires
        mensen.dom().contains(id),
        names_differ(mensen),
    ensures
        callback_actions(
            mensa_data(action, mensen[id]@),
            chat_id,
            registration,
            mensen,
            descriptions,
        ) matches Some(actions) && shows_only(
            actions,
            ActionView::SendMeals { days_forward: 0, mensa_id: id, markup: Markup::Plain },
        ),
{
    law_button(mensen, id, chat_id, registration, descriptions);
    let actions = callback_actions(
        mensa_data(action, mensen[id]@),
        chat_id,
        registration,
        mensen,
        descriptions,
    )->0;
    let k: int = match action {
        MensaKeyboardAction::DisplayOnce => 1,
        _ => 2,
    };
    law_button_data(mensen[id]@);
    assert(actions[k] == (ActionView::SendMeals {
        days_forward: 0,
        mensa_id: id,
        markup: Markup::Plain,
    }));
}

/// The order by which a chat moves to another canteen.
pub open spec fn moves_to(chat_id: i64, mensa_id: u32) -> JobHandlerTask {
    JobHandlerTask {
        job_type: JobType::UpdateRegistration,
        chat_id: Some(chat_id),
        mensa_id: Some(mensa_id),
        hour: None,
        minute: None,
        meals_diff: None,
    }
}

/// The order by which a chat is entered.
pub open spec fn enters(chat_id: i64, mensa_id: u32) -> JobHandlerTask {
    JobHandlerTask {
        job_type: JobType::Register,
        chat_id: Some(chat_id),
        mensa_id: Some(mensa_id),
        hour: Some(6),
        minute: Some(0),
        meals_diff: None,
    }
}

/// The order by which the registration of a chat is looked up.
pub open spec fn asks_for(chat_id: i64) -> JobHandlerTask {
    JobHandlerTask {
        job_type: JobType::QueryRegistration,
        chat_id: Some(chat_id),
        mensa_id: None,
        hour: None,
        minute: None,
        meals_diff: None,
    }
}

/// All that comes of a canteen's buttons, and in which order: the message with the button says what was
/// picked, the plan of the canteen is shown, and what changes is written down and given to the task
/// scheduler. Showing a plan once changes nothing.
pub proof fn law_button(
    mensen: Map<u32, String>,
    id: u32,
    chat_id: i64,
    registration: Option<RegistrationEntry>,
    descriptions: Seq<char>,
)
    requires
        mensen.dom().contains(id),
        names_differ(mensen),
    ensures
        callback_actions("m_upd:"@ + mensen[id]@, chat_id, registration, mensen, descriptions)
            == Some(
            seq![
                ActionView::EditPressed {
                    text: "Gewählte Mensa: *"@ + mensen[id]@ + "*"@,
                    markdown: true,
                },
                ActionView::Queue(asks_for(chat_id)),
                ActionView::SendMeals { days_forward: 0, mensa_id: id, markup: Markup::Plain },
                ActionView::UpdateDb(moves_to(chat_id, id)),
                ActionView::Queue(moves_to(chat_id, id)),
            ],
        ),
        callback_actions("m_disp:"@ + mensen[id]@, chat_id, registration, mensen, descriptions)
            == Some(
            seq![
                ActionView::EditPressed { text: "*"@ + mensen[id]@ + "*:"@, markdown: true },
                ActionView::SendMeals { days_forward: 0, mensa_id: id, markup: Markup::Plain },
            ],
        ),
        callback_actions("m_regist:"@ + mensen[id]@, chat_id, registration, mensen, descriptions)
            == Some(
            seq![
                ActionView::EditPressed {
                    text: descriptions
                        + "\n\nWenn /heute oder /morgen kein Wochentag ist, wird der Plan für Montag angezeigt."@,
                    markdown: false,
                },
                ActionView::Send {
                    text: "Plan der *"@ + mensen[id]@
                        + "* wird ab jetzt automatisch an Wochentagen *06:00 Uhr* gesendet\\.\n\nÄndern mit\n/mensa oder /uhrzeit"@,
                    markdown: true,
                    markup: Markup::Commands,
                },
                ActionView::SendMeals { days_forward: 0, mensa_id: id, markup: Markup::Plain },
                ActionView::UpdateDb(enters(chat_id, id)),
                ActionView::Queue(enters(chat_id, id)),
            ],
        ),
{
    let name = mensen[id]@;
    law_button_data(name);
    law_mensa_data(MensaKeyboardAction::Register, name);
    law_mensa_data(MensaKeyboardAction::Update, name);
    law_mensa_data(MensaKeyboardAction::DisplayOnce, name);
    law_mensa_found_by_name(mensen, id);
    reveal_strlit("m_regist");
    reveal_strlit("m_upd");
    reveal_strlit("m_disp");
    assert("m_regist"@.len() == 8 && "m_upd"@.len() == 5 && "m_disp"@.len() == 6);
    lemma_button_texts(name);
}

proof fn lemma_button_texts(name: Seq<char>)
    ensures
        "Gewählte Mensa: "@ + crate::markdown::bold_text(name) == "Gewählte Mensa: *"@ + name + "*"@,
        crate::markdown::bold_text(name) + ":"@ == "*"@ + name + "*:"@,
        crate::shared_main::welcome_text(name) == "Plan der *"@ + name
            + "* wird ab jetzt automatisch an Wochentagen *06:00 Uhr* gesendet\\.\n\nÄndern mit\n/mensa oder /uhrzeit"@,
{
    reveal_strlit("Gewählte Mensa: ");
    reveal_strlit("Gewählte Mensa: *");
    reveal_strlit("*");
    reveal_strlit(":");
    reveal_strlit("*:");
    reveal_strlit("Plan der ");
    reveal_strlit("Plan der *");
    reveal_strlit(
        " wird ab jetzt automatisch an Wochentagen *06:00 Uhr* gesendet\\.\n\nÄndern mit\n/mensa oder /uhrzeit",
    );
    reveal_strlit(
        "* wird ab jetzt automatisch an Wochentagen *06:00 Uhr* gesendet\\.\n\nÄndern mit\n/mensa oder /uhrzeit",
    );
    assert("Gewählte Mensa: "@ + crate::markdown::bold_text(name) == "Gewählte Mensa: *"@ + name
        + "*"@);
    assert(crate::markdown::bold_text(name) + ":"@ == "*"@ + name + "*:"@);
}

/// Every button of the keyboard of canteens says which canteen it is for, and shows today's plan of
/// that one. There is a button for every canteen.
pub proof fn law_keyboard(
    buttons: Seq<InlineButton>,
    ids: Seq<u32>,
    mensen: Map<u32, String>,
    action: MensaKeyboardAction,
    i: int,
    chat_id: i64,
    registration: Option<RegistrationEntry>,
    descriptions: Seq<char>,
)
    requires
        are_mensa_buttons(buttons, ids, mensen, action),
        ascending_u32(ids, mensen.dom()),
        names_differ(mensen),
        0 <= i < buttons.len(),
    ensures
        buttons[i].text@ == mensen[ids[i]]@,
        callback_actions(buttons[i].data@, chat_id, registration, mensen, descriptions) matches Some(
            actions,
        ) && shows_only(
            actions,
            ActionView::SendMeals { days_forward: 0, mensa_id: ids[i], markup: Markup::Plain },
        ),
        forall|id: u32| #[trigger] mensen.dom().contains(id) ==> ids.contains(id),
        buttons.len() == ids.len(),
        forall|j: int, k: int| 0 <= j < k < ids.len() ==> #[trigger] ids[j] < #[trigger] ids[k],
{
    assert(ids.contains(ids[i]));
    law_button_shows_its_canteen(mensen, ids[i], action, chat_id, registration, descriptions);
}

/// The buttons of the days: a number up to two leads to the plan of the canteen that the chat is
/// registered for, as many days ahead. A larger one is not understood.
pub proof fn law_day_buttons(
    chat_id: i64,
    entry: RegistrationEntry,
    mensen: Map<u32, String>,
    descriptions: Seq<char>,
    days: nat,
)
    ensures
        callback_actions("day:"@ + dec(days), chat_id, Some(entry), mensen, descriptions) == if days
            <= 2 {
            Some(
                seq![
                    ActionView::Queue(asks_for(chat_id)),
                    ActionView::SendMeals {
                        days_forward: days as i64,
                        mensa_id: entry.mensa_id,
                        markup: Markup::Plain,
                    },
                ],
            )
        } else {
            None
        },
        callback_actions("day:"@ + dec(days), chat_id, None, mensen, descriptions) == Some(
            seq![
                ActionView::Send {
                    text: "Bitte zuerst /start ausführen"@,
                    markdown: false,
                    markup: Markup::Plain,
                },
            ],
        ),
{
    let data = "day:"@ + dec(days);
    reveal_strlit("day:");
    reveal_strlit("day");
    reveal_strlit("m_regist");
    reveal_strlit("m_upd");
    reveal_strlit("m_disp");
    assert("day"@.len() == 3 && "m_regist"@.len() == 8 && "m_upd"@.len() == 5 && "m_disp"@.len()
        == 6);
    lemma_first_of(data, ':', 3);
    assert(data.take(3) == "day"@);
    assert(data.skip(4) == dec(days));
    law_read_signed(days, 2);
}

/// Which texts are days: a number up to two, with or without a plus sign before it, and nothing else.
/// No number below zero is one.
pub proof fn law_days(n: nat, s: Seq<char>)
    ensures
        is_day(dec(n)) <==> n <= 2,
        is_day(seq!['+'] + dec(n)) <==> n <= 2,
        is_day(seq!['-'] + dec(n)) <==> n == 0,
        is_day(s) ==> {
            let digits = if s[0] == '+' || s[0] == '-' {
                s.skip(1)
            } else {
                s
            };
            &&& digits.len() > 0
            &&& forall|i: int| 0 <= i < digits.len() ==> '0' <= #[trigger] digits[i] <= '9'
            &&& 0 <= signed_value(s) <= 2
        },
{
    law_read_signed(n, 2);
    if is_day(s) {
        let digits = if s[0] == '+' || s[0] == '-' {
            s.skip(1)
        } else {
            s
        };
        assert forall|i: int| 0 <= i < digits.len() implies '0' <= #[trigger] digits[i] <= '9' by {
            assert(is_digit(digits[i]));
        }
        if s[0] == '-' {
            assert(signed_value(s) >= 0);
            assert(crate::text::digits_value(digits) <= 2);
        }
        lemma_digits_value_bounds(digits);
    }
}

/// A button whose data has no colon, or none of the four commands before it, is not understood. Nor is
/// one that names no canteen.
pub proof fn law_strange_buttons(
    data: Seq<char>,
    chat_id: i64,
    registration: Option<RegistrationEntry>,
    mensen: Map<u32, String>,
    descriptions: Seq<char>,
)
    ensures
        callback_actions(data, chat_id, registration, mensen, descriptions) is Some ==> {
            &&& cut(data, ':') matches Some((cmd, arg))
            &&& cmd == "m_upd"@ || cmd == "m_disp"@ || cmd == "m_regist"@ || cmd == "day"@
            &&& cmd != "day"@ ==> exists|id: u32| #[trigger]
                mensen.dom().contains(id) && mensen[id]@ == arg
            &&& cmd == "day"@ && registration is Some ==> is_day(arg)
        },
{
    reveal_strlit("day");
    reveal_strlit("m_regist");
    reveal_strlit("m_upd");
    reveal_strlit("m_disp");
    assert("day"@.len() == 3 && "m_regist"@.len() == 8 && "m_upd"@.len() == 5 && "m_disp"@.len()
        == 6);
    if let Some((cmd, arg)) = cut(data, ':') {
        if cmd != "day"@ && mensa_named(mensen, arg) is Some {
            assert(mensen.dom().contains(mensa_named(mensen, arg)->0));
        }
    }
}

// ---------------------------------------------------------------------------------------------
// Commands
// ---------------------------------------------------------------------------------------------

/// Every command has its own handler; the three days share one. A text is the answer to the question
/// for a time if there is such a question, and else no command.
pub proof fn law_handlers(state: DialogueState)
    ensures
        handler_of(Some(Command::Start), state) == Handler::Start,
        handler_of(Some(Command::Heute), state) == Handler::Day,
        handler_of(Some(Command::Morgen), state) == Handler::Day,
        handler_of(Some(Command::Uebermorgen), state) == Handler::Day,
        handler_of(Some(Command::Andere), state) == Handler::ShowDifferentMensa,
        handler_of(Some(Command::Subscribe), state) == Handler::Subscribe,
        handler_of(Some(Command::Unsubscribe), state) == Handler::Unsubscribe,
        handler_of(Some(Command::Mensa), state) == Handler::ChangeMensa,
        handler_of(Some(Command::Uhrzeit), state) == Handler::StartTimeDialogue,
        handler_of(None, DialogueState::AwaitTimeReply) == Handler::ReplyTimeDialogue,
        handler_of(None, DialogueState::Default) == Handler::InvalidCommand,
{
}

/// The commands of the days show the plan of the chat's own canteen: today's, tomorrow's, and that of
/// the day after tomorrow.
pub proof fn law_day_commands(entry: RegistrationEntry)
    ensures
        day_actions(Command::Heute, Some(entry)) == seq![
            ActionView::SendMeals {
                days_forward: 0,
                mensa_id: entry.mensa_id,
                markup: Markup::Commands,
            },
        ],
        day_actions(Command::Morgen, Some(entry)) == seq![
            ActionView::SendMeals {
                days_forward: 1,
                mensa_id: entry.mensa_id,
                markup: Markup::Commands,
            },
        ],
        day_actions(Command::Uebermorgen, Some(entry)) == seq![
            ActionView::SendMeals {
                days_forward: 2,
                mensa_id: entry.mensa_id,
                markup: Markup::Commands,
            },
        ],
{
}

/// What a chat is told that has not been entered, whatever it asks for.
pub proof fn law_not_entered(cmd: Command, picked: MensaKeyboardAction, chat_id: i64, roll: int)
    ensures
        ({
            let told = seq![
                ActionView::Send {
                    text: "Bitte zuerst /start ausführen"@,
                    markdown: false,
                    markup: Markup::Plain,
                },
            ];
            &&& day_actions(cmd, None) == told
            &&& mensa_choice(None, picked) == told
            &&& subscribe_actions(None, chat_id, roll) == told
            &&& unsubscribe_actions(None, chat_id) == told
            &&& allergene_actions(None) == told
            &&& senddiff_actions(None) == told
            &&& no_time_to_set() == told.push(ActionView::ExitDialogue)
        }),
{
}

/// A chat that is entered is asked for a canteen, with the buttons for what it wants.
pub proof fn law_canteen_is_asked_for(entry: RegistrationEntry, picked: MensaKeyboardAction)
    ensures
        mensa_choice(Some(entry), picked) == seq![
            ActionView::Send {
                text: "Mensa auswählen:"@,
                markdown: false,
                markup: Markup::Mensen(picked),
            },
        ],
{
}

/// Subscribing starts the daily message at six o'clock if there is none, and changes nothing if there
/// is one. What the dice say decides on nothing but a picture.
pub proof fn law_subscribing(entry: RegistrationEntry, chat_id: i64, roll: int)
    ensures
        entry.job_uuid is None ==> subscribe_actions(Some(entry), chat_id, roll) == seq![
            ActionView::Send {
                text:
                    "Plan wird ab jetzt automatisch an Wochentagen *06:00 Uhr* gesendet\\.\n\nÄndern mit /uhrzeit"@,
                markdown: true,
                markup: Markup::Plain,
            },
            ActionView::Queue(
                JobHandlerTask {
                    job_type: JobType::UpdateRegistration,
                    chat_id: Some(chat_id),
                    mensa_id: None,
                    hour: Some(6),
                    minute: Some(0),
                    meals_diff: None,
                },
            ),
        ],
        entry.job_uuid is Some && roll != 0 ==> subscribe_actions(Some(entry), chat_id, roll)
            == seq![plain("Automatische Nachrichten sind schon aktiviert."@)],
        entry.job_uuid is Some && roll == 0 ==> subscribe_actions(Some(entry), chat_id, roll)
            == seq![
            ActionView::SendBloatImage,
            plain("Automatische Nachrichten sind schon aktiviert."@),
        ],
{
    assert(Seq::<ActionView>::empty() + seq![
        plain("Automatische Nachrichten sind schon aktiviert."@),
    ] == seq![plain("Automatische Nachrichten sind schon aktiviert."@)]);
}

/// Unsubscribing stops the daily message if there is one, and changes nothing if there is none.
pub proof fn law_unsubscribing(entry: RegistrationEntry, chat_id: i64)
    ensures
        entry.job_uuid is Some ==> unsubscribe_actions(Some(entry), chat_id) == seq![
            plain("Plan wird nicht mehr automatisch gesendet."@),
            ActionView::Queue(
                JobHandlerTask {
                    job_type: JobType::DeleteRegistration,
                    chat_id: Some(chat_id),
                    mensa_id: None,
                    hour: None,
                    minute: None,
                    meals_diff: None,
                },
            ),
        ],
        entry.job_uuid is None ==> unsubscribe_actions(Some(entry), chat_id) == seq![
            plain("Automatische Nachrichten waren bereits deaktiviert."@),
        ],
{
}

/// Each switch turns over what it is for, leaves the other as it is, and says how it stands now.
pub proof fn law_switch_texts(allergens: bool, senddiff: bool)
    ensures
        allergene_actions(Some(DisplayPreferences { allergens: false, senddiff })) == seq![
            ActionView::StoreAllergens(true),
            ActionView::StorePreferences(DisplayPreferences { allergens: true, senddiff }),
            plain("✅ Allergene werden jetzt angezeigt."@),
        ],
        allergene_actions(Some(DisplayPreferences { allergens: true, senddiff })) == seq![
            ActionView::StoreAllergens(false),
            ActionView::StorePreferences(DisplayPreferences { allergens: false, senddiff }),
            plain("❌ Allergene werden nicht mehr angezeigt."@),
        ],
        senddiff_actions(Some(DisplayPreferences { allergens, senddiff: false })) == seq![
            ActionView::StoreAllergens(true),
            ActionView::StorePreferences(DisplayPreferences { allergens, senddiff: true }),
            plain("✅ Nur Änderungen werden bei Planänderung gesendet."@),
        ],
        senddiff_actions(Some(DisplayPreferences { allergens, senddiff: true })) == seq![
            ActionView::StoreAllergens(false),
            ActionView::StorePreferences(DisplayPreferences { allergens, senddiff: false }),
            plain("❌ Gesamter Plan wird bei Änderungen gesendet."@),
        ],
{
}

/// What stands behind a command is its argument, without the white space round it. A command alone has
/// none.
pub proof fn law_argument(command: Seq<char>, argument: Seq<char>)
    requires
        crate::lines::free_of(command, ' '),
    ensures
        argument_of(Some(command + " "@ + argument)) == Some(trimmed(argument)),
        argument_of(Some(command)) is None,
        argument_of(None) is None,
{
    reveal_strlit(" ");
    let text = command + " "@ + argument;
    lemma_first_of(text, ' ', command.len() as int);
    assert(text.skip(command.len() as int + 1) == argument);
    assert(forall|i: int| 0 <= i < command.len() ==> #[trigger] command[i] != ' ');
    lemma_first_of(command, ' ', command.len() as int);
}

/// A time that was read is given to the task scheduler, for this chat and with this hour and minute.
/// If none was read, the chat is asked for one, or stays asked.
pub proof fn law_time_dialogue(
    time: ParsedTimeAndLastMsgFromDialleougueue,
    e: TimeParseError,
    chat_id: i64,
)
    ensures
        ({
            let order = JobHandlerTask {
                job_type: JobType::UpdateRegistration,
                chat_id: Some(chat_id),
                mensa_id: None,
                hour: Some(time.hour),
                minute: Some(time.minute),
                meals_diff: None,
            };
            &&& started_actions(Ok(time), chat_id) == seq![ActionView::Queue(order)]
            &&& replied_actions(Ok(time), chat_id) == seq![
                ActionView::ExitDialogue,
                ActionView::Queue(order),
            ]
        }),
        started_actions(Err(e), chat_id) == seq![
            ActionView::UpdateDialogue(DialogueState::AwaitTimeReply),
        ],
        replied_actions(Err(e), chat_id) == Seq::<ActionView>::empty(),
{
}

/// What is known of a chat is what is registered under its number, and nothing else.
pub proof fn law_registration(registrations: Map<i64, RegistrationEntry>, chat: i64)
    ensures
        registrations.dom().contains(chat) ==> registration_of(registrations, chat) == Some(
            registrations[chat],
        ),
        !registrations.dom().contains(chat) ==> registration_of(registrations, chat) is None,
{
}

} // verus!
