//! Keyboards and pressed buttons.
use std::collections::BTreeMap;
use stuwe_telegram_rs::actions::{Action, Markup};
use stuwe_telegram_rs::data_types::{
    JobHandlerTask, JobType, MensaKeyboardAction, RegisterTask, RegistrationEntry,
    UpdateRegistrationTask,
};
use stuwe_telegram_rs::shared_main::{
    callback_handler, find_mensa, make_commands_keyrow, make_mensa_keyboard, make_query_data,
    parse_day,
};

const CHAT: i64 = -5;

fn mensen() -> BTreeMap<u32, String> {
    BTreeMap::from([
        (118, "Mensa Academica".to_string()),
        (106, "Mensa am Park".to_string()),
        (111, "Mensa: Petersstraße".to_string()),
    ])
}

fn entry() -> RegistrationEntry {
    RegistrationEntry { job_uuid: None, mensa_id: 118, hour: None, minute: None }
}

fn press(data: &str, registration: Option<RegistrationEntry>) -> Option<Vec<Action>> {
    callback_handler(Some(data), true, CHAT, registration, &mensen(), "Befehle")
}

#[test]
fn one_button_for_every_canteen() {
    let keyboard = make_mensa_keyboard(&mensen(), MensaKeyboardAction::Register);
    let shown: Vec<(&str, &str)> =
        keyboard.iter().map(|b| (b.text.as_str(), b.data.as_str())).collect();
    assert_eq!(
        shown,
        vec![
            ("Mensa am Park", "m_regist:Mensa am Park"),
            ("Mensa: Petersstraße", "m_regist:Mensa: Petersstraße"),
            ("Mensa Academica", "m_regist:Mensa Academica"),
        ]
    );
}

#[test]
fn button_data_by_action() {
    for (action, data) in [
        (MensaKeyboardAction::Register, "m_regist:Mensa am Park"),
        (MensaKeyboardAction::Update, "m_upd:Mensa am Park"),
        (MensaKeyboardAction::DisplayOnce, "m_disp:Mensa am Park"),
    ] {
        assert_eq!(make_mensa_keyboard(&mensen(), action)[0].data, data);
    }
}

#[test]
fn command_rows() {
    assert_eq!(
        make_commands_keyrow(),
        vec![vec!["/heute", "/morgen", "/uebermorgen"], vec!["/andere", "/mensa"]]
    );
}

#[test]
fn canteens_by_name() {
    let mut mensen = mensen();
    mensen.insert(7, "Mensa am Park".to_string());
    assert_eq!(find_mensa(&mensen, "Mensa am Park"), Some(7));
    assert_eq!(find_mensa(&mensen, "Mensa Academica"), Some(118));
    assert_eq!(find_mensa(&mensen, "Mensa"), None);
}

#[test]
fn query_order() {
    assert_eq!(
        make_query_data(CHAT),
        JobHandlerTask {
            job_type: JobType::QueryRegistration,
            chat_id: Some(CHAT),
            mensa_id: None,
            hour: None,
            minute: None,
            meals_diff: None,
        }
    );
}

#[test]
fn button_without_data_or_message() {
    assert_eq!(callback_handler(None, true, CHAT, None, &mensen(), ""), Some(vec![]));
    assert_eq!(
        callback_handler(Some("nonsense"), false, CHAT, None, &mensen(), ""),
        Some(vec![Action::AnswerCallback])
    );
}

#[test]
fn button_changes_the_canteen() {
    let order: JobHandlerTask = UpdateRegistrationTask {
        chat_id: CHAT,
        mensa_id: Some(111),
        hour: None,
        minute: None,
    }
    .into();
    assert_eq!(
        press("m_upd:Mensa: Petersstraße", None),
        Some(vec![
            Action::AnswerCallback,
            Action::EditPressed {
                text: "Gewählte Mensa: *Mensa: Petersstraße*".to_string(),
                markdown: true,
            },
            Action::Queue(make_query_data(CHAT)),
            Action::SendMeals { days_forward: 0, mensa_id: 111, markup: Markup::Plain },
            Action::UpdateDb(order.clone()),
            Action::Queue(order),
        ])
    );
}

#[test]
fn button_shows_a_canteen_once() {
    assert_eq!(
        press("m_disp:Mensa am Park", None),
        Some(vec![
            Action::AnswerCallback,
            Action::EditPressed { text: "*Mensa am Park*:".to_string(), markdown: true },
            Action::SendMeals { days_forward: 0, mensa_id: 106, markup: Markup::Plain },
        ])
    );
}

#[test]
fn button_registers_the_chat() {
    let order: JobHandlerTask =
        RegisterTask { chat_id: CHAT, mensa_id: 106, hour: 6, minute: 0 }.into();
    assert_eq!(
        press("m_regist:Mensa am Park", None),
        Some(vec![
            Action::AnswerCallback,
            Action::EditPressed {
                text: "Befehle\n\nWenn /heute oder /morgen kein Wochentag ist, wird der Plan für Montag angezeigt."
                    .to_string(),
                markdown: false,
            },
            Action::Send {
                text: "Plan der *Mensa am Park* wird ab jetzt automatisch an Wochentagen *06:00 Uhr* gesendet\\.\n\nÄndern mit\n/mensa oder /uhrzeit"
                    .to_string(),
                markdown: true,
                markup: Markup::Commands,
            },
            Action::SendMeals { days_forward: 0, mensa_id: 106, markup: Markup::Plain },
            Action::UpdateDb(order.clone()),
            Action::Queue(order),
        ])
    );
}

#[test]
fn button_for_a_day() {
    assert_eq!(
        press("day:2", Some(entry())),
        Some(vec![
            Action::AnswerCallback,
            Action::Queue(make_query_data(CHAT)),
            Action::SendMeals { days_forward: 2, mensa_id: 118, markup: Markup::Plain },
        ])
    );
    assert_eq!(
        press("day:x", None),
        Some(vec![
            Action::AnswerCallback,
            Action::Send {
                text: "Bitte zuerst /start ausführen".to_string(),
                markdown: false,
                markup: Markup::Plain,
            },
        ])
    );
}

#[test]
fn unknown_buttons() {
    for data in ["", "day", "m_upd:Mensa", "m_disp:", "m_regist:x", "weg:1", "day:3", "day:-1", "day:"] {
        assert_eq!(press(data, Some(entry())), None, "{data}");
    }
}

#[test]
fn days_as_numbers() {
    for (text, day) in
        [("0", Some(0)), ("+1", Some(1)), ("-0", Some(0)), ("002", Some(2)), ("-2", None), ("1 ", None), ("+", None), ("4294967298", None)]
    {
        assert_eq!(parse_day(text), day, "{text}");
    }
}

#[test]
fn every_canteen_button_is_understood() {
    for action in [
        MensaKeyboardAction::Register,
        MensaKeyboardAction::Update,
        MensaKeyboardAction::DisplayOnce,
    ] {
        for (button, id) in make_mensa_keyboard(&mensen(), action).iter().zip(mensen().keys()) {
            let actions = press(&button.data, None).unwrap();
            let shown = Action::SendMeals { days_forward: 0, mensa_id: *id, markup: Markup::Plain };
            assert!(actions.contains(&shown));
        }
    }
}
