//! What comes back from the functions that the bots call, from one call or from two.
use crate::actions::{views, Action, ActionView, Markup};
use crate::bot_command_handlers::{
    invalid_cmd, reply_time_dialogue, start, start_time_dialogue, TimeDialogue,
};
use crate::bot_command_helpers::{
    ai_answer, ai_parse_time, announcement, is_time_step, oracle_answered, rex_parse_time, time_of,
    AiRequest,
};
use crate::button_bot;
use crate::calendar::RequestedDay;
use crate::campusdual_fetcher::{
    grades_message, login_page_request, signup_options_message, CampusDualRequest, RequestView,
};
use crate::data_backend::mm_parser::mm_mensen_url;
use crate::data_backend::stuwe_parser::{mensen_url, stuwe_build_meal_msg};
use crate::data_types::stuwe_data_types::MealGroup;
use crate::data_types::{
    Backend, CampusDualError, CampusDualGrade, CampusDualSignupOption, JobHandlerTask, JobType,
    MensaKeyboardAction, ParsedTimeAndLastMsgFromDialleougueue, RegistrationEntry, TimeParseError,
};
use crate::laws::button_handler_laws;
use crate::laws::campusdual_laws::{law_exam_rows, law_grade_rows};
use crate::laws::handler_laws::{
    law_button_shows_its_canteen, law_keyboard, names_differ, shows_only,
};
use crate::laws::scheduler_laws::{law_due, minute_of_day};
use crate::laws::text_laws::law_read_number;
use crate::ordered::ascending_u32;
use crate::shared_main::{
    are_mensa_buttons, callback_actions, callback_handler, make_commands_keyrow,
    make_mensa_keyboard, mensa_data, InlineButton,
};
use crate::task_scheduler_funcs::{
    announces_changes, await_handle_mealplan_upd, mealplan_updates_url, update_due,
};
use crate::text::{dec, texts};
use std::collections::BTreeMap;
use vstd::prelude::*;

verus! {

// ---------------------------------------------------------------------------------------------
// Buttons
// ---------------------------------------------------------------------------------------------

/// Whoever presses the button of a canteen gets an acknowledgement first, and then one plan: today's
/// plan of that canteen, whatever the chat is registered for.
pub proof fn law_pressing(
    data: &str,
    action: MensaKeyboardAction,
    id: u32,
    chat_id: i64,
    registration: Option<RegistrationEntry>,
    mensen: &BTreeMap<u32, String>,
    descriptions: &str,
    r: Option<Vec<Action>>,
)
    requires
        data@ == mensa_data(action, mensen@[id]@),
        mensen@.dom().contains(id),
        names_differ(mensen@),
        call_ensures(
            callback_handler,
            (Some(data), true, chat_id, registration, mensen, descriptions),
            r,
        ),
    ensures
        r matches Some(actions) && {
            &&& actions@.len() > 0
            &&& actions@[0]@ == ActionView::AnswerCallback
            &&& shows_only(
                views(actions@),
                ActionView::SendMeals { days_forward: 0, mensa_id: id, markup: Markup::Plain },
            )
        },
{
    law_button_shows_its_canteen(mensen@, id, action, chat_id, registration, descriptions@);
    let expected = callback_actions(data@, chat_id, registration, mensen@, descriptions@)->0;
    let shown = views(r->0@);
    assert(shown == seq![ActionView::AnswerCallback] + expected);
    assert(shown[0] == ActionView::AnswerCallback);
    assert(shown[0] == r->0@[0]@);
    let what = ActionView::SendMeals { days_forward: 0, mensa_id: id, markup: Markup::Plain };
    let k = choose|k: int|
        0 <= k < expected.len() && #[trigger] expected[k] == what && forall|i: int|
            0 <= i < expected.len() && i != k ==> !(#[trigger] expected[i] is SendMeals);
    assert(shown[k + 1] == what);
    assert forall|i: int| 0 <= i < shown.len() && i != k + 1 implies !(
    #[trigger] shown[i] is SendMeals) by {
        if i > 0 {
            assert(shown[i] == expected[i - 1]);
        }
    }
}

/// A press without data leads to nothing, and one whose message is gone is acknowledged and no more.
pub proof fn law_lost_presses(
    data: &str,
    there: bool,
    chat_id: i64,
    registration: Option<RegistrationEntry>,
    mensen: &BTreeMap<u32, String>,
    descriptions: &str,
    nothing: Option<Vec<Action>>,
    gone: Option<Vec<Action>>,
)
    requires
        call_ensures(
            callback_handler,
            (None, there, chat_id, registration, mensen, descriptions),
            nothing,
        ),
        call_ensures(
            callback_handler,
            (Some(data), false, chat_id, registration, mensen, descriptions),
            gone,
        ),
    ensures
        nothing matches Some(actions) && actions@.len() == 0,
        gone matches Some(actions) && views(actions@) == seq![ActionView::AnswerCallback],
{
}

/// There is one button for every canteen, with its name, and pressing it shows today's plan of that
/// canteen.
pub proof fn law_every_canteen_has_a_button(
    mensen: &BTreeMap<u32, String>,
    action: MensaKeyboardAction,
    buttons: Vec<InlineButton>,
    id: u32,
    chat_id: i64,
    registration: Option<RegistrationEntry>,
    descriptions: Seq<char>,
)
    requires
        call_ensures(make_mensa_keyboard, (mensen, action), buttons),
        names_differ(mensen@),
        mensen@.dom().contains(id),
    ensures
        exists|i: int|
            0 <= i < buttons@.len() && (#[trigger] buttons@[i]).text@ == mensen@[id]@ && (
            callback_actions(
                buttons@[i].data@,
                chat_id,
                registration,
                mensen@,
                descriptions,
            ) matches Some(actions) && shows_only(
                actions,
                ActionView::SendMeals { days_forward: 0, mensa_id: id, markup: Markup::Plain },
            )),
{
    let ids = choose|ids: Seq<u32>|
        ascending_u32(ids, mensen@.dom()) && #[trigger] are_mensa_buttons(
            buttons@,
            ids,
            mensen@,
            action,
        );
    assert(ids.contains(id));
    let i = choose|i: int| 0 <= i < ids.len() && ids[i] == id;
    law_keyboard(buttons@, ids, mensen@, action, i, chat_id, registration, descriptions);
    assert(buttons@[i].text@ == mensen@[id]@);
}

/// The keyboard of commands has the days in its first row, and the canteens in its second.
pub proof fn law_command_rows(rows: Vec<Vec<String>>)
    requires
        call_ensures(make_commands_keyrow, (), rows),
    ensures
        rows@.len() == 2,
        texts(rows@[0]@) == seq!["/heute"@, "/morgen"@, "/uebermorgen"@],
        texts(rows@[1]@) == seq!["/andere"@, "/mensa"@],
{
}

/// Whoever presses the button of a canteen in the button bot gets an acknowledgement first, and then
/// one plan: today's plan of that canteen, whatever the chat is registered for.
pub proof fn law_button_bot_pressing(
    data: &str,
    only_mensa_upd: bool,
    id: u8,
    name: Seq<char>,
    chat_id: i64,
    registration: Option<button_bot::data_types::RegistrationEntry>,
    mensen: &Vec<(String, u8)>,
    descriptions: &str,
    r: Option<Vec<button_bot::handlers::Action>>,
)
    requires
        data@ == button_bot::handlers::mensa_command(only_mensa_upd) + ":"@ + name,
        button_bot::handlers::id_by_name(
            button_bot::stuwe_parser::mensa_views(mensen@),
            name,
        ) == Some(id),
        call_ensures(
            button_bot::handlers::callback_handler,
            (Some(data), true, chat_id, registration, mensen, descriptions),
            r,
        ),
    ensures
        r matches Some(actions) && {
            &&& actions@.len() > 0
            &&& actions@[0]@ == button_bot::handlers::ActionView::AnswerCallback
            &&& button_handler_laws::shows_only(
                button_bot::handlers::views(actions@),
                button_bot::handlers::ActionView::SendMeals { days_forward: 0, mensa_id: id },
            )
        },
{
    let list = button_bot::stuwe_parser::mensa_views(mensen@);
    button_handler_laws::law_button_shows_its_canteen(
        name,
        id,
        only_mensa_upd,
        chat_id,
        registration,
        list,
        descriptions@,
    );
    let expected = button_bot::handlers::callback_actions(
        data@,
        chat_id,
        registration,
        list,
        descriptions@,
    )->0;
    let shown = button_bot::handlers::views(r->0@);
    assert(shown == seq![button_bot::handlers::ActionView::AnswerCallback] + expected);
    assert(shown[0] == button_bot::handlers::ActionView::AnswerCallback);
    assert(shown[0] == r->0@[0]@);
    let what = button_bot::handlers::ActionView::SendMeals { days_forward: 0, mensa_id: id };
    let k = choose|k: int|
        0 <= k < expected.len() && #[trigger] expected[k] == what && forall|i: int|
            0 <= i < expected.len() && i != k ==> !(#[trigger] expected[i] is SendMeals);
    assert(shown[k + 1] == what);
    assert forall|i: int| 0 <= i < shown.len() && i != k + 1 implies !(
    #[trigger] shown[i] is SendMeals) by {
        if i > 0 {
            assert(shown[i] == expected[i - 1]);
        }
    }
}

/// Every canteen of the button bot has its own button, with its name.
pub proof fn law_button_bot_keyboard(
    mensen: &Vec<(String, u8)>,
    updates: Vec<InlineButton>,
    registers: Vec<InlineButton>,
    i: int,
)
    requires
        call_ensures(button_bot::handlers::make_mensa_keyboard, (mensen, true), updates),
        call_ensures(button_bot::handlers::make_mensa_keyboard, (mensen, false), registers),
        0 <= i < mensen@.len(),
    ensures
        updates@.len() == mensen@.len(),
        registers@.len() == mensen@.len(),
        updates@[i].text@ == mensen@[i].0@,
        registers@[i].text@ == mensen@[i].0@,
        updates@[i].data@ == "m_upd:"@ + mensen@[i].0@,
        registers@[i].data@ == "m_regist:"@ + mensen@[i].0@,
{
    reveal_strlit("m_regist");
    reveal_strlit("m_upd");
    reveal_strlit(":");
    reveal_strlit("m_regist:");
    reveal_strlit("m_upd:");
    assert("m_regist"@ + ":"@ == "m_regist:"@);
    assert("m_upd"@ + ":"@ == "m_upd:"@);
}

/// A message without text leads to nothing in the button bot.
pub proof fn law_no_text(
    cmd: Option<button_bot::data_types::Command>,
    chat_id: i64,
    registration: Option<button_bot::data_types::RegistrationEntry>,
    r: Vec<button_bot::handlers::Action>,
)
    requires
        call_ensures(
            button_bot::handlers::command_handler,
            (None, cmd, chat_id, registration),
            r,
        ),
    ensures
        r@.len() == 0,
{
    assert(button_bot::handlers::views(r@).len() == 0);
}

// ---------------------------------------------------------------------------------------------
// Commands and times
// ---------------------------------------------------------------------------------------------

/// The start asks for a canteen to register for, and what is no command is called so.
pub proof fn law_start(asked: Vec<Action>, wrong: Vec<Action>)
    requires
        call_ensures(start, (), asked),
        call_ensures(invalid_cmd, (), wrong),
    ensures
        views(asked@) == seq![
            ActionView::Send {
                text: "Mensa auswählen:"@,
                markdown: false,
                markup: Markup::Mensen(MensaKeyboardAction::Register),
            },
        ],
        views(wrong@) == seq![
            ActionView::Send {
                text: "Das ist kein Befehl."@,
                markdown: false,
                markup: Markup::Plain,
            },
        ],
{
}

/// A reply is read as a whole; the argument of the command is what stands behind it. A reply that is no
/// text is asked for again, and a chat that has not been entered is told so.
pub proof fn law_dialogue(
    reply: &str,
    message: &str,
    read: TimeDialogue,
    again: TimeDialogue,
    refused: TimeDialogue,
)
    requires
        call_ensures(reply_time_dialogue, (Some(reply),), read),
        call_ensures(reply_time_dialogue, (None,), again),
        call_ensures(start_time_dialogue, (Some(message), None), refused),
    ensures
        read matches TimeDialogue::Parse(step) && is_time_step(step, Some(reply@)),
        again matches TimeDialogue::Done(actions) && views(actions@) == seq![
            ActionView::Send {
                text: "Das ist kein Text.\nBitte mit Uhrzeit antworten:"@,
                markdown: false,
                markup: Markup::Plain,
            },
        ],
        refused matches TimeDialogue::Done(actions) && views(actions@) == seq![
            ActionView::Send {
                text: "Bitte zuerst /start ausführen"@,
                markdown: false,
                markup: Markup::Plain,
            },
            ActionView::ExitDialogue,
        ],
{
}

/// The oracle is asked at its address only if both address and model are known. Its answer is read like
/// any text, and the message that announced the question is handed on with the time.
pub proof fn law_asking(
    txt: &str,
    host: &str,
    model: &str,
    asked: Result<AiRequest, TimeParseError>,
    no_model: Result<AiRequest, TimeParseError>,
    no_host: Result<AiRequest, TimeParseError>,
    reply: &str,
    answer: Result<(u32, u32), TimeParseError>,
    same: Result<(u32, u32), TimeParseError>,
    silent: Result<(u32, u32), TimeParseError>,
)
    requires
        call_ensures(ai_parse_time, (txt, Some(host), Some(model)), asked),
        call_ensures(ai_parse_time, (txt, Some(host), None), no_model),
        call_ensures(ai_parse_time, (txt, None, Some(model)), no_host),
        call_ensures(ai_answer, (Some(reply),), answer),
        call_ensures(rex_parse_time, (reply,), same),
        call_ensures(ai_answer, (None,), silent),
    ensures
        asked matches Ok(request) && request.url@ == host@ + "/generate"@,
        no_model == Err::<AiRequest, TimeParseError>(TimeParseError::OllamaUnconfigured),
        no_host == Err::<AiRequest, TimeParseError>(TimeParseError::OllamaUnconfigured),
        answer == same,
        time_of(reply@) is None <==> answer == Err::<(u32, u32), TimeParseError>(
            TimeParseError::InvalidTimePassed,
        ),
        silent == Err::<(u32, u32), TimeParseError>(TimeParseError::OllamaUnavailable),
{
}

/// A time that the oracle named is announced and handed on as it is, with the message to remove.
pub proof fn law_oracle_time(
    hour: u32,
    minute: u32,
    message: i32,
    r: (String, Result<ParsedTimeAndLastMsgFromDialleougueue, TimeParseError>),
)
    requires
        call_ensures(oracle_answered, (Ok((hour, minute)), message), r),
    ensures
        r.0@ == announcement(hour as nat, minute as nat),
        r.1 matches Ok(time) && time.hour == hour && time.minute == minute && time.msgid == Some(
            message,
        ),
{
}

/// Each error has its own words.
pub proof fn law_error_texts(
    invalid: String,
    away: String,
    unset: String,
    missing: String,
    status: u16,
    init: String,
    zba: String,
    refused: String,
)
    requires
        call_ensures(TimeParseError::text, (&TimeParseError::InvalidTimePassed,), invalid),
        call_ensures(TimeParseError::text, (&TimeParseError::OllamaUnavailable,), away),
        call_ensures(TimeParseError::text, (&TimeParseError::OllamaUnconfigured,), unset),
        call_ensures(TimeParseError::text, (&TimeParseError::NoTimeArgPassed,), missing),
        call_ensures(CampusDualError::text, (&CampusDualError::CdInitFailed(status),), init),
        call_ensures(CampusDualError::text, (&CampusDualError::CdZbaFailed(status),), zba),
        call_ensures(CampusDualError::text, (&CampusDualError::CdBadCredentials,), refused),
    ensures
        invalid@ == "Zeit konnte nicht gelesen werden"@,
        away@ == "Ollama API ist nicht erreichbar"@,
        unset@ == "Ollama API ist nicht konfiguriert"@,
        missing@ == "Kein optionaler Zeitparam. bei Dialogstart"@,
        init@ == "CampusDual init failed: "@ + dec(status as nat),
        zba@ == "CampusDual zba_init failed: "@ + dec(status as nat),
        refused@ == "CampusDual: bad credentials"@,
{
}

// ---------------------------------------------------------------------------------------------
// Changed plans
// ---------------------------------------------------------------------------------------------

/// Whether a chat is told, in minutes of the day: it is if and only if its daily message from the
/// canteen was due before.
pub proof fn law_told_when_due(
    entry: RegistrationEntry,
    mensa_id: u32,
    now: (u32, u32),
    r: bool,
)
    requires
        call_ensures(update_due, (&entry, mensa_id, now), r),
        entry.minute matches Some(minute) ==> minute < 60,
        now.1 < 60,
    ensures
        r <==> {
            &&& entry.mensa_id == mensa_id
            &&& entry.hour is Some
            &&& entry.minute is Some
            &&& minute_of_day(entry.hour->0, entry.minute->0) < minute_of_day(now.0, now.1)
        },
{
    law_due(entry, mensa_id, now);
}

/// An announcement is the number of a canteen, and it becomes the order to tell of that canteen.
pub proof fn law_announced(mensa_id: u32, text: &str, r: Option<JobHandlerTask>)
    requires
        text@ == dec(mensa_id as nat),
        call_ensures(await_handle_mealplan_upd, (text,), r),
    ensures
        r == Some(
            JobHandlerTask {
                job_type: JobType::BroadcastUpdate,
                chat_id: None,
                mensa_id: Some(mensa_id),
                hour: None,
                minute: None,
                meals_diff: None,
            },
        ),
{
    law_read_number(mensa_id as nat, u32::MAX + 1);
}

/// Changes are announced by one of the two services, at its address.
pub proof fn law_announcing(
    api_url: &str,
    stuwe: bool,
    mensimates: bool,
    url: String,
    list: String,
    other_list: String,
)
    requires
        call_ensures(announces_changes, (Backend::StuWe,), stuwe),
        call_ensures(announces_changes, (Backend::MensiMates,), mensimates),
        call_ensures(mealplan_updates_url, (api_url,), url),
        call_ensures(mensen_url, (api_url,), list),
        call_ensures(mm_mensen_url, (), other_list),
    ensures
        stuwe,
        !mensimates,
        url@ == api_url@ + "/today_updated_ws"@,
        list@ == api_url@ + "/canteens"@,
        other_list@ == "https://api.cyber-biene.de/mensaHub/mensa/getMensas"@,
{
}

/// A plan that could not be fetched is an error.
pub proof fn law_no_plan(day: RequestedDay, days_forward: i64, r: String)
    requires
        call_ensures(stuwe_build_meal_msg, (None::<Vec<MealGroup>>, day, days_forward), r),
    ensures
        r@ == "Ein Fehler ist aufgetreten\\."@,
{
}

// ---------------------------------------------------------------------------------------------
// Results and exams
// ---------------------------------------------------------------------------------------------

/// One more exam at the end of the list is one more row at the end of the message, and that row is made
/// of this exam alone.
pub proof fn law_one_more_exam(
    fewer: &Vec<CampusDualSignupOption>,
    more: &Vec<CampusDualSignupOption>,
    last: CampusDualSignupOption,
    short: String,
    long: String,
)
    requires
        more@ == fewer@.push(last),
        call_ensures(signup_options_message, (fewer,), short),
        call_ensures(signup_options_message, (more,), long),
    ensures
        long@ == short@ + "\n"@ + last.status@ + " ("@ + last.verfahren@ + ") — "@ + last.name@,
        fewer@.len() == 0 ==> short@ == "Neue Anmeldemöglichkeit:"@,
{
    let before = crate::campusdual_fetcher::signup_views(fewer@);
    let after = crate::campusdual_fetcher::signup_views(more@);
    assert(after == before.push(last@));
    law_exam_rows(0, before, last@);
    assert(long@ == short@ + "\n"@ + last.status@ + " ("@ + last.verfahren@ + ") — "@ + last.name@);
}

/// One more result at the end of the list is one more row at the end of the message, and that row is
/// made of this result alone.
pub proof fn law_one_more_result(
    fewer: &Vec<CampusDualGrade>,
    more: &Vec<CampusDualGrade>,
    last: CampusDualGrade,
    short: String,
    long: String,
)
    requires
        more@ == fewer@.push(last),
        call_ensures(grades_message, (fewer,), short),
        call_ensures(grades_message, (more,), long),
    ensures
        long@ == short@ + "\n"@ + last.name@ + ": "@ + last.grade@,
        fewer@.len() == 0 ==> short@ == "Neue Note:"@,
{
    let before = crate::campusdual_fetcher::grade_views(fewer@);
    let after = crate::campusdual_fetcher::grade_views(more@);
    assert(after == before.push(last@));
    law_grade_rows(0, before, last@);
    assert(long@ == short@ + "\n"@ + last.name@ + ": "@ + last.grade@);
}

/// The way to the results starts at the login page.
pub proof fn law_login_page(r: CampusDualRequest)
    requires
        call_ensures(login_page_request, (), r),
    ensures
        r@ == (RequestView::Get {
            url:
                "https://erp.campus-dual.de/sap/bc/webdynpro/sap/zba_initss?sap-client=100&sap-language=de&uri=https://selfservice.campus-dual.de/index/login"@,
        }),
{
}

} // verus!
