//! The answers to commands.
use stuwe_telegram_rs::actions::{Action, Markup};
use stuwe_telegram_rs::bot_command_handlers::{
    allergene, change_mensa, day_cmd, invalid_cmd, schema, senddiff, show_different_mensa, start,
    subscribe, subscribe_with, unsubscribe, Handler,
};
use stuwe_telegram_rs::data_types::{
    Command, DialogueState, DisplayPreferences, JobHandlerTask, MensaKeyboardAction,
    RegistrationEntry, UnregisterTask, UpdateRegistrationTask,
};
use uuid::Uuid;

const CHAT: i64 = 77;

fn silent() -> RegistrationEntry {
    RegistrationEntry { job_uuid: None, mensa_id: 106, hour: None, minute: None }
}

fn daily() -> RegistrationEntry {
    RegistrationEntry {
        job_uuid: Some(Uuid::from_u128(1)),
        mensa_id: 115,
        hour: Some(6),
        minute: Some(0),
    }
}

fn plain(text: &str) -> Action {
    Action::Send { text: text.to_string(), markdown: false, markup: Markup::Plain }
}

fn choice(action: MensaKeyboardAction) -> Vec<Action> {
    vec![Action::Send {
        text: "Mensa auswählen:".to_string(),
        markdown: false,
        markup: Markup::Mensen(action),
    }]
}

fn unknown() -> Vec<Action> {
    vec![plain("Bitte zuerst /start ausführen")]
}

#[test]
fn start_offers_the_canteens() {
    assert_eq!(start(), choice(MensaKeyboardAction::Register));
}

#[test]
fn no_command() {
    assert_eq!(invalid_cmd(), vec![plain("Das ist kein Befehl.")]);
}

#[test]
fn day_commands() {
    for (cmd, days_forward) in [(Command::Heute, 0), (Command::Morgen, 1), (Command::Uebermorgen, 2)]
    {
        assert_eq!(
            day_cmd(cmd, Some(daily())),
            vec![Action::SendMeals { days_forward, mensa_id: 115, markup: Markup::Commands }]
        );
        assert_eq!(day_cmd(cmd, None), unknown());
    }
}

#[test]
fn canteens_to_look_at_or_to_change_to() {
    assert_eq!(show_different_mensa(Some(silent())), choice(MensaKeyboardAction::DisplayOnce));
    assert_eq!(change_mensa(Some(silent())), choice(MensaKeyboardAction::Update));
    assert_eq!(show_different_mensa(None), unknown());
    assert_eq!(change_mensa(None), unknown());
}

#[test]
fn subscribe_orders_six_o_clock() {
    let order: JobHandlerTask =
        UpdateRegistrationTask { chat_id: CHAT, mensa_id: None, hour: Some(6), minute: Some(0) }
            .into();
    let expected = vec![
        Action::Send {
            text: "Plan wird ab jetzt automatisch an Wochentagen *06:00 Uhr* gesendet\\.\n\nÄndern mit /uhrzeit"
                .to_string(),
            markdown: true,
            markup: Markup::Plain,
        },
        Action::Queue(order),
    ];
    assert_eq!(subscribe_with(Some(silent()), CHAT, 0), expected);
    assert_eq!(subscribe(Some(silent()), CHAT), expected);
}

#[test]
fn subscribe_twice() {
    let told = plain("Automatische Nachrichten sind schon aktiviert.");
    assert_eq!(
        subscribe_with(Some(daily()), CHAT, 0),
        vec![Action::SendBloatImage, told.clone()]
    );
    for roll in 1..10 {
        assert_eq!(subscribe_with(Some(daily()), CHAT, roll), vec![told.clone()]);
    }
    assert_eq!(subscribe(Some(daily()), CHAT).last(), Some(&told));
}

#[test]
fn chance_rolls_a_zero_now_and_then() {
    let pictures =
        (0..1000).filter(|_| subscribe(Some(daily()), CHAT)[0] == Action::SendBloatImage).count();
    assert!(pictures > 0 && pictures < 1000);
}

#[test]
fn unsubscribe_orders_the_end() {
    assert_eq!(
        unsubscribe(Some(daily()), CHAT),
        vec![
            plain("Plan wird nicht mehr automatisch gesendet."),
            Action::Queue(UnregisterTask { chat_id: CHAT }.into()),
        ]
    );
    assert_eq!(
        unsubscribe(Some(silent()), CHAT),
        vec![plain("Automatische Nachrichten waren bereits deaktiviert.")]
    );
}

#[test]
fn unknown_chats_are_told() {
    assert_eq!(subscribe(None, CHAT), unknown());
    assert_eq!(unsubscribe(None, CHAT), unknown());
    assert_eq!(allergene(None), unknown());
    assert_eq!(senddiff(None), unknown());
}

#[test]
fn allergens_are_switched() {
    let off = DisplayPreferences { allergens: false, senddiff: true };
    let on = DisplayPreferences { allergens: true, senddiff: true };
    assert_eq!(
        allergene(Some(off)),
        vec![
            Action::StoreAllergens(true),
            Action::StorePreferences(on),
            plain("✅ Allergene werden jetzt angezeigt."),
        ]
    );
    assert_eq!(
        allergene(Some(on)),
        vec![
            Action::StoreAllergens(false),
            Action::StorePreferences(off),
            plain("❌ Allergene werden nicht mehr angezeigt."),
        ]
    );
}

#[test]
fn changes_only_is_switched() {
    let off = DisplayPreferences { allergens: true, senddiff: false };
    let on = DisplayPreferences { allergens: true, senddiff: true };
    assert_eq!(
        senddiff(Some(off)),
        vec![
            Action::StoreAllergens(true),
            Action::StorePreferences(on),
            plain("✅ Nur Änderungen werden bei Planänderung gesendet."),
        ]
    );
    assert_eq!(
        senddiff(Some(on)),
        vec![
            Action::StoreAllergens(false),
            Action::StorePreferences(off),
            plain("❌ Gesamter Plan wird bei Änderungen gesendet."),
        ]
    );
}

#[test]
fn commands_find_their_handlers() {
    for (cmd, handler) in [
        (Command::Start, Handler::Start),
        (Command::Heute, Handler::Day),
        (Command::Morgen, Handler::Day),
        (Command::Uebermorgen, Handler::Day),
        (Command::Andere, Handler::ShowDifferentMensa),
        (Command::Subscribe, Handler::Subscribe),
        (Command::Unsubscribe, Handler::Unsubscribe),
        (Command::Mensa, Handler::ChangeMensa),
        (Command::Uhrzeit, Handler::StartTimeDialogue),
    ] {
        assert_eq!(schema(Some(cmd), DialogueState::Default), handler);
        assert_eq!(schema(Some(cmd), DialogueState::AwaitTimeReply), handler);
    }
    assert_eq!(schema(None, DialogueState::AwaitTimeReply), Handler::ReplyTimeDialogue);
    assert_eq!(schema(None, DialogueState::default()), Handler::InvalidCommand);
}
