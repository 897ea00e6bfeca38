//! The bot with day buttons.
use std::collections::BTreeMap;
use stuwe_telegram_rs::button_bot::data_types::{
    Command, JobHandlerTask, JobType, RegistrationEntry, TimeParseError,
};
use stuwe_telegram_rs::button_bot::db_operations::{get_all_tasks_db, DbChange, RegistrationRow};
use stuwe_telegram_rs::button_bot::handlers::{
    callback_handler, command_handler, make_days_keyboard, make_mensa_keyboard, make_query_data,
    parse_time, plan_sent, pressed_plan_sent, remember_buttons, tell_change, Action, Buttons,
};
use stuwe_telegram_rs::button_bot::scheduler::{
    get_user_registration, init_task_scheduler, load_registrations, settle, SchedulerPlan,
    SchedulerStep,
};
use stuwe_telegram_rs::button_bot::stuwe_parser::{
    build_meal_message, build_meal_message_with, build_url_params, escape_markdown_v2, mensen,
    mm_json_request, request_meals, request_meals_from_now,
};
use stuwe_telegram_rs::calendar::{time_of_day_now, CalendarDate, RequestedDay};
use stuwe_telegram_rs::data_types::mm_data_types::MensiMeal;
use stuwe_telegram_rs::data_types::Backend;
use stuwe_telegram_rs::shared_main::{DailyJob, PlanRequest};
use uuid::Uuid;

const CHAT: i64 = 12;

fn entry(job: Option<u128>, mensa_id: u8, time: Option<(u32, u32)>, callback_id: Option<i32>) -> RegistrationEntry {
    RegistrationEntry {
        job_uuid: job.map(Uuid::from_u128),
        mensa_id,
        hour: time.map(|t| t.0),
        minute: time.map(|t| t.1),
        callback_id,
    }
}

fn task(job_type: JobType) -> JobHandlerTask {
    JobHandlerTask {
        job_type,
        chat_id: Some(CHAT),
        mensa_id: None,
        hour: None,
        minute: None,
        callback_id: None,
    }
}

fn at(hour: u32, minute: u32) -> JobHandlerTask {
    JobHandlerTask {
        hour: Some(hour),
        minute: Some(minute),
        ..task(JobType::UpdateRegistration)
    }
}

fn plain(text: &str) -> Action {
    Action::Send { text: text.to_string(), markdown: false, buttons: Buttons::Nothing }
}

fn answer(text: &str, cmd: Command, registration: Option<RegistrationEntry>) -> Vec<Action> {
    command_handler(Some(text), Some(cmd), CHAT, registration)
}

fn press(data: &str, registration: Option<RegistrationEntry>) -> Option<Vec<Action>> {
    callback_handler(Some(data), true, CHAT, registration, &mensen(), "Befehle")
}

fn dish(category: &str, name: &str, description: &str, price: &str) -> MensiMeal {
    MensiMeal {
        allergens: String::new(),
        category: category.to_string(),
        description: description.to_string(),
        name: name.to_string(),
        price: price.to_string(),
        rating_eighths: 0,
        rating_text: String::new(),
        votes: 0,
    }
}

fn monday(raised: u32) -> RequestedDay {
    RequestedDay { date: CalendarDate { year: 2024, month: 5, day: 6 }, raised }
}

#[test]
fn canteens_known_by_heart() {
    let list = mensen();
    assert_eq!(list.len(), 9);
    assert!(list.windows(2).all(|w| w[0].0 < w[1].0));
    let map: BTreeMap<&str, u8> = list.iter().map(|m| (m.0.as_str(), m.1)).collect();
    assert_eq!(
        map,
        BTreeMap::from([
            ("Cafeteria Dittrichring", 153),
            ("Mensaria am Botanischen Garten", 127),
            ("Mensa Academica", 118),
            ("Mensa am Park", 106),
            ("Mensa am Elsterbecken", 115),
            ("Mensa am Medizincampus", 162),
            ("Mensa Peterssteinweg", 111),
            ("Mensa Schönauer Straße", 140),
            ("Mensa Tierklinik", 170),
        ])
    );
}

#[test]
fn addresses_of_plans() {
    let date = monday(0).date;
    for (id, slug) in [
        (153, "cafeteria_dittrichring"),
        (127, "menseria_am_botanischen_garten"),
        (118, "mensa_academica"),
        (106, "mensa_am_park"),
        (115, "mensa_am_elsterbecken"),
        (162, "mensa_am_medizincampus"),
        (111, "mensa_peterssteinweg"),
        (140, "mensa_schoenauerstr"),
        (170, "mensa_tierklinik"),
    ] {
        assert_eq!(
            build_url_params(date, id),
            ("2024-05-06".to_string(), slug.to_string())
        );
        assert_eq!(
            mm_json_request(date, id),
            format!("https://api.olech2412.de/mensaHub/{slug}/servingDate/2024-05-06")
        );
    }
}

#[test]
fn plan_with_buttons() {
    let meals = Some(vec![
        dish("Fleisch", "Wurst", "Senf & N/A & Brot", "3 €"),
        dish("Fleisch", "Steak", "", "4 €"),
        dish("Beilage", "Reis", "N/A", "1 €"),
    ]);
    assert_eq!(
        build_meal_message_with(&meals, monday(1), 0, 4),
        "🍽️ _Montag, 06\\.05\\.2024_ \\(Morgen\\) 🍽️\n\n*Beilage*\n • __Reis__\n  1 €\n\n*Fleisch*\n • __Wurst__\n     \\+ _Senf_\n     \\+ _Brot_\n  3 €\n • __Steak__\n     \\+ __\n  4 €\n"
    );
}

#[test]
fn plan_with_buttons_failed_or_empty() {
    assert_eq!(
        build_meal_message_with(&None, monday(2), 0, 6),
        "🌤️ _Montag, 06\\.05\\.2024_ \\(Übermorgen\\) 🌤️\n*\nMensiMates\\-Abfrage fehlgeschlagen\\.\n*"
    );
    assert_eq!(
        build_meal_message_with(&Some(vec![]), monday(2), 1, 0),
        "☀️ _Montag, 06\\.05\\.2024_ ☀️\n*\nkeine Daten vorhanden\\.\n*"
    );
    let all: Vec<String> =
        (0..7).map(|e| build_meal_message_with(&None, monday(0), 0, e)).collect();
    let request = PlanRequest { day: monday(0), days_forward: 0, url: String::new() };
    assert!(all.contains(&build_meal_message(&None, &request)));
    let heads: Vec<&str> = all.iter().map(|m| m.split(' ').next().unwrap()).collect();
    assert_eq!(heads, ["☀️", "🦀", "💂🏻‍♀️", "☕️", "🍽️", "☝🏻", "🌤️"]);
}

#[test]
fn requests_with_buttons() {
    let sunday = CalendarDate { year: 2024, month: 5, day: 5 };
    assert_eq!(
        request_meals(sunday, 106, 0),
        Some(PlanRequest {
            day: monday(1),
            days_forward: 0,
            url: "https://api.olech2412.de/mensaHub/mensa_am_park/servingDate/2024-05-06"
                .to_string(),
        })
    );
    assert_eq!(request_meals(sunday, 106, i64::MAX), None);
    let now = request_meals_from_now(106, 1).unwrap();
    assert_eq!(now.days_forward, 1);
    assert_eq!(now.url, mm_json_request(now.day.date, 106));
}

#[test]
fn changes_take_the_old_buttons_away() {
    assert_eq!(
        tell_change(&entry(Some(1), 106, Some((6, 0)), Some(5))),
        vec![Action::RemoveButtons { message_id: 5 }, Action::SendChange { mensa_id: 106 }]
    );
    assert_eq!(
        tell_change(&entry(Some(1), 118, Some((6, 0)), None)),
        vec![Action::SendChange { mensa_id: 118 }]
    );
}

#[test]
fn pressed_days_are_remembered() {
    assert_eq!(pressed_plan_sent("day:1", CHAT, 9), remember_buttons(CHAT, 9));
    for data in ["m_upd:Mensa am Park", "m_regist:day:1", "day", ""] {
        assert_eq!(pressed_plan_sent(data, CHAT, 9), vec![]);
    }
}

#[test]
fn one_entity_is_decoded() {
    assert_eq!(escape_markdown_v2("a&amp;b&nbsp;c."), "a&b&nbsp;c\\.");
}

#[test]
fn time_argument() {
    assert_eq!(parse_time("/uhrzeit 12:30"), Ok((12, 30)));
    assert_eq!(parse_time("/uhrzeit 12:30 bitte"), Ok((12, 30)));
    assert_eq!(parse_time("/uhrzeit"), Err(TimeParseError::NoTimePassed));
    assert_eq!(parse_time("/uhrzeit  12:30"), Err(TimeParseError::InvalidTimePassed));
    assert_eq!(parse_time("/uhrzeit 25:00"), Err(TimeParseError::InvalidTimePassed));
    assert_eq!(TimeParseError::NoTimePassed.text(), "Keine Zeit übergeben");
    assert_eq!(TimeParseError::InvalidTimePassed.text(), "Zeit konnte nicht gelesen werden");
}

#[test]
fn messages_that_are_no_commands() {
    assert_eq!(command_handler(None, None, CHAT, None), vec![]);
    assert_eq!(
        command_handler(Some("hallo"), None, CHAT, None),
        vec![plain("Ungültiger Befehl")]
    );
}

#[test]
fn start_needs_no_registration() {
    assert_eq!(
        answer("/start", Command::Start, None),
        vec![Action::Send {
            text: "Mensa auswählen:".to_string(),
            markdown: false,
            buttons: Buttons::RegisterMensa,
        }]
    );
}

#[test]
fn everything_else_needs_one() {
    for cmd in [
        Command::Heute,
        Command::Morgen,
        Command::Uebermorgen,
        Command::Subscribe,
        Command::Unsubscribe,
        Command::Uhrzeit,
        Command::Mensa,
    ] {
        assert_eq!(answer("/x 12:00", cmd, None), vec![plain("Bitte zuerst /start ausführen")]);
    }
}

#[test]
fn plan_by_command() {
    let fresh = entry(None, 106, None, None);
    let seen = entry(None, 106, None, Some(8));
    for (cmd, days_forward) in [(Command::Heute, 0), (Command::Morgen, 1), (Command::Uebermorgen, 2)]
    {
        let sent = Action::SendMeals { days_forward, mensa_id: 106 };
        assert_eq!(answer("/x", cmd, Some(fresh)), vec![sent.clone()]);
        assert_eq!(
            answer("/x", cmd, Some(seen)),
            vec![Action::RemoveButtons { message_id: 8 }, sent]
        );
    }
}

#[test]
fn sent_plan_is_remembered() {
    let remember =
        JobHandlerTask { callback_id: Some(9), ..task(JobType::InsertCallbackMessageId) };
    let remembered = vec![Action::UpdateDb(remember), Action::Queue(remember)];
    assert_eq!(remember_buttons(CHAT, 9), remembered);
    assert_eq!(plan_sent(CHAT, &entry(None, 106, None, None), 9), remembered);
    assert_eq!(
        plan_sent(CHAT, &entry(None, 106, None, Some(8)), 9),
        vec![
            Action::RemoveButtons { message_id: 8 },
            Action::UpdateDb(remember),
            Action::Queue(remember),
        ]
    );
}

#[test]
fn subscriptions_by_command() {
    let silent = Some(entry(None, 106, None, None));
    let daily = Some(entry(Some(1), 106, Some((6, 0)), None));
    let query = Action::Queue(make_query_data(CHAT));
    assert_eq!(
        answer("/subscribe", Command::Subscribe, silent),
        vec![
            query.clone(),
            plain("Plan wird ab jetzt automatisch an Wochentagen 06:00 Uhr gesendet.\n\nÄndern mit /uhrzeit [Zeit]"),
            Action::Queue(at(6, 0)),
        ]
    );
    assert_eq!(
        answer("/subscribe", Command::Subscribe, daily),
        vec![query, plain("Automatische Nachrichten sind schon aktiviert.")]
    );
    assert_eq!(
        answer("/unsubscribe", Command::Unsubscribe, daily),
        vec![
            plain("Plan wird nicht mehr automatisch gesendet."),
            Action::Queue(task(JobType::Unregister)),
        ]
    );
    assert_eq!(
        answer("/unsubscribe", Command::Unsubscribe, silent),
        vec![plain("Automatische Nachrichten waren bereits deaktiviert.")]
    );
}

#[test]
fn time_by_command() {
    let known = Some(entry(None, 106, None, None));
    assert_eq!(
        answer("/uhrzeit 7:05", Command::Uhrzeit, known),
        vec![
            plain("Plan wird ab jetzt automatisch an Wochentagen 07:05 Uhr gesendet.\n\n/unsubscribe zum Deaktivieren"),
            Action::Queue(at(7, 5)),
        ]
    );
    assert_eq!(
        answer("/uhrzeit", Command::Uhrzeit, known),
        vec![plain("Bitte Zeit angeben\n/uhrzeit [Zeit]")]
    );
    assert_eq!(
        answer("/uhrzeit x", Command::Uhrzeit, known),
        vec![plain("Eingegebene Zeit ist ungültig.")]
    );
    assert_eq!(
        answer("/mensa", Command::Mensa, known),
        vec![Action::Send {
            text: "Mensa auswählen:".to_string(),
            markdown: false,
            buttons: Buttons::UpdateMensa,
        }]
    );
}

#[test]
fn keyboards_with_day_buttons() {
    let days = make_days_keyboard();
    let shown: Vec<(&str, &str)> = days.iter().map(|b| (b.text.as_str(), b.data.as_str())).collect();
    assert_eq!(shown, [("Heute", "day:0"), ("Morgen", "day:1"), ("Überm.", "day:2")]);
    let list = mensen();
    assert_eq!(make_mensa_keyboard(&list, true)[7].data, "m_upd:Mensa am Park");
    assert_eq!(make_mensa_keyboard(&list, false)[7].data, "m_regist:Mensa am Park");
    assert_eq!(make_mensa_keyboard(&list, false)[7].text, "Mensa am Park");
}

#[test]
fn pressed_day_buttons() {
    for (i, button) in make_days_keyboard().iter().enumerate() {
        assert_eq!(
            press(&button.data, Some(entry(None, 106, None, Some(4)))),
            Some(vec![
                Action::AnswerCallback,
                Action::RemoveButtons { message_id: 4 },
                Action::RemovePressedButtons,
                Action::SendMeals { days_forward: i as i64, mensa_id: 106 },
            ])
        );
    }
    assert_eq!(
        press("day:0", None),
        Some(vec![Action::AnswerCallback, plain("Bitte zuerst /start ausführen")])
    );
}

#[test]
fn pressed_canteen_buttons() {
    assert_eq!(
        press("m_upd:Mensa am Park", None),
        Some(vec![
            Action::AnswerCallback,
            Action::EditPressed {
                text: "Gewählte Mensa: *Mensa am Park*".to_string(),
                markdown: true,
            },
            Action::SendMeals { days_forward: 0, mensa_id: 106 },
            Action::Queue(JobHandlerTask {
                mensa_id: Some(106),
                ..task(JobType::UpdateRegistration)
            }),
        ])
    );
    assert_eq!(
        press("m_regist:Mensa Tierklinik", None),
        Some(vec![
            Action::AnswerCallback,
            Action::EditPressed {
                text: "Befehle\n\nWenn /heute oder /morgen kein Wochentag ist, wird der Plan für Montag angezeigt."
                    .to_string(),
                markdown: false,
            },
            Action::Send {
                text: "Plan der *Mensa Tierklinik* wird ab jetzt automatisch an Wochentagen *06:00 Uhr* gesendet\\.\n\nÄndern mit\n/mensa, bzw\\.\n/uhrzeit \\[Zeit\\]"
                    .to_string(),
                markdown: true,
                buttons: Buttons::Nothing,
            },
            Action::SendMeals { days_forward: 0, mensa_id: 170 },
            Action::Queue(JobHandlerTask {
                mensa_id: Some(170),
                hour: Some(6),
                minute: Some(0),
                ..task(JobType::Register)
            }),
        ])
    );
}

#[test]
fn pressed_unknown_buttons() {
    for data in ["m_disp:Mensa am Park", "m_upd:Mensa", "day:9", "day:-1", "x", "m_regist:"] {
        assert_eq!(press(data, Some(entry(None, 106, None, None))), None, "{data}");
    }
    assert_eq!(callback_handler(None, true, CHAT, None, &mensen(), ""), Some(vec![]));
    assert_eq!(
        callback_handler(Some("x"), false, CHAT, None, &mensen(), ""),
        Some(vec![Action::AnswerCallback])
    );
}

fn carried(step: SchedulerStep) -> SchedulerPlan {
    match step {
        SchedulerStep::Carry(plan) => plan,
        other => panic!("{other:?}"),
    }
}

#[test]
fn registering_keeps_the_message_with_buttons() {
    let registrations = BTreeMap::from([(CHAT, entry(Some(1), 106, Some((6, 0)), Some(5)))]);
    let order = JobHandlerTask {
        mensa_id: Some(118),
        hour: Some(6),
        minute: Some(0),
        ..task(JobType::Register)
    };
    for backend in [Backend::StuWe, Backend::MensiMates] {
        assert_eq!(
            carried(init_task_scheduler(backend, &registrations, &order)),
            SchedulerPlan {
                chat_id: CHAT,
                unload: Some(Uuid::from_u128(1)),
                load: Some(DailyJob { chat_id: CHAT, mensa_id: 118, hour: 6, minute: 0 }),
                entry: entry(None, 118, Some((6, 0)), Some(5)),
                changes: vec![DbChange::Replace {
                    chat_id: CHAT,
                    mensa_id: 118,
                    hour: 6,
                    minute: 0,
                }],
            }
        );
    }
}

#[test]
fn another_canteen_at_the_same_time() {
    let registrations = BTreeMap::from([(CHAT, entry(Some(1), 106, Some((6, 0)), Some(5)))]);
    let order = JobHandlerTask { mensa_id: Some(118), ..task(JobType::UpdateRegistration) };
    for backend in [Backend::StuWe, Backend::MensiMates] {
        let plan = carried(init_task_scheduler(backend, &registrations, &order));
        assert_eq!(
            plan,
            SchedulerPlan {
                chat_id: CHAT,
                unload: Some(Uuid::from_u128(1)),
                load: Some(DailyJob { chat_id: CHAT, mensa_id: 118, hour: 6, minute: 0 }),
                entry: entry(None, 118, Some((6, 0)), Some(5)),
                changes: vec![DbChange::SetMensa { chat_id: CHAT, mensa_id: 118 }],
            }
        );
        let mut after = registrations.clone();
        settle(&mut after, &plan, Some(Uuid::from_u128(2)));
        assert_eq!(after[&CHAT], entry(Some(2), 118, Some((6, 0)), Some(5)));
    }
}

#[test]
fn another_canteen_without_a_time() {
    let registrations = BTreeMap::from([(CHAT, entry(None, 106, None, Some(5)))]);
    let order = JobHandlerTask { mensa_id: Some(118), ..task(JobType::UpdateRegistration) };
    for backend in [Backend::StuWe, Backend::MensiMates] {
        let plan = carried(init_task_scheduler(backend, &registrations, &order));
        assert_eq!((plan.unload, plan.load), (None, None));
        assert_eq!(plan.entry, entry(None, 118, None, Some(5)));
    }
}

#[test]
fn updating_the_time_loads_a_job() {
    let registrations = BTreeMap::from([(CHAT, entry(Some(1), 106, Some((6, 0)), None))]);
    for backend in [Backend::StuWe, Backend::MensiMates] {
        let plan = carried(init_task_scheduler(backend, &registrations, &at(9, 15)));
        assert_eq!(plan.unload, Some(Uuid::from_u128(1)));
        assert_eq!(
            plan.load,
            Some(DailyJob { chat_id: CHAT, mensa_id: 106, hour: 9, minute: 15 })
        );
        let mut after = registrations.clone();
        settle(&mut after, &plan, Some(Uuid::from_u128(2)));
        assert_eq!(after[&CHAT], entry(Some(2), 106, Some((9, 15)), None));
    }
}

#[test]
fn other_orders_with_day_buttons() {
    let mut registrations = BTreeMap::from([(CHAT, entry(Some(1), 106, Some((0, 0)), Some(5)))]);
    let take = |registrations: &BTreeMap<i64, RegistrationEntry>, order: &JobHandlerTask| {
        init_task_scheduler(Backend::StuWe, registrations, order)
    };
    assert_eq!(
        take(&registrations, &task(JobType::QueryRegistration)),
        SchedulerStep::Answer(Some(registrations[&CHAT]))
    );
    assert_eq!(
        take(&BTreeMap::new(), &at(1, 1)),
        SchedulerStep::Notify {
            chat_id: CHAT,
            text: "Bitte zuerst /start ausführen".to_string(),
        }
    );
    let changed =
        JobHandlerTask { chat_id: None, mensa_id: Some(106), ..task(JobType::BroadcastUpdate) };
    let now = time_of_day_now();
    if now != (23, 59) && now != (0, 0) {
        assert_eq!(take(&registrations, &changed), SchedulerStep::Tell(vec![CHAT]));
    }
    assert_eq!(
        init_task_scheduler(Backend::MensiMates, &registrations, &changed),
        SchedulerStep::Tell(vec![])
    );
    let remember =
        JobHandlerTask { callback_id: Some(7), ..task(JobType::InsertCallbackMessageId) };
    let plan = carried(take(&registrations, &remember));
    assert_eq!(plan.changes, vec![]);
    settle(&mut registrations, &plan, None);
    assert_eq!(registrations[&CHAT], entry(Some(1), 106, Some((0, 0)), Some(7)));
    let plan = carried(take(&registrations, &task(JobType::Unregister)));
    assert_eq!(plan.unload, Some(Uuid::from_u128(1)));
    assert_eq!(plan.changes, vec![DbChange::ClearTime { chat_id: CHAT }]);
    settle(&mut registrations, &plan, None);
    assert_eq!(
        get_user_registration(&registrations, CHAT),
        Some(entry(None, 106, None, Some(7)))
    );
    assert_eq!(take(&registrations, &changed), SchedulerStep::Tell(vec![]));
}

#[test]
fn restart_with_day_buttons() {
    let rows = vec![
        RegistrationRow {
            chat_id: 1,
            mensa_id: 106,
            hour: Some(6),
            minute: Some(0),
            last_callback_id: Some(3),
        },
        RegistrationRow { chat_id: 2, mensa_id: 118, hour: None, minute: None, last_callback_id: None },
    ];
    let tasks = get_all_tasks_db(&rows);
    assert_eq!(
        tasks[0],
        JobHandlerTask {
            job_type: JobType::UpdateRegistration,
            chat_id: Some(1),
            mensa_id: Some(106),
            hour: Some(6),
            minute: Some(0),
            callback_id: Some(3),
        }
    );
    assert_eq!(
        load_registrations(&tasks, &vec![Some(Uuid::from_u128(1)), None]),
        BTreeMap::from([
            (1, entry(Some(1), 106, Some((6, 0)), Some(3))),
            (2, entry(None, 118, None, None)),
        ])
    );
}
