//! Reading a time of day, and the dialogue about it.
use regex_lite::Regex;
use stuwe_telegram_rs::actions::{Action, Markup};
use stuwe_telegram_rs::bot_command_handlers::{
    reply_time_dialogue, start_time_dialogue, time_dialogue_replied, time_dialogue_started,
    TimeDialogue,
};
use stuwe_telegram_rs::bot_command_helpers::{
    ai_answer, ai_body, ai_parse_time, ai_prompt, announce, oracle_answered,
    parse_time_send_status_msgs, rex_parse_time, time_at_start, TimeStep,
};
use stuwe_telegram_rs::data_types::{
    DialogueState, JobHandlerTask, ParsedTimeAndLastMsgFromDialleougueue, RegistrationEntry,
    TimeParseError, UpdateRegistrationTask,
};

fn entry() -> RegistrationEntry {
    RegistrationEntry { job_uuid: None, mensa_id: 106, hour: None, minute: None }
}

fn plain(text: &str) -> Action {
    Action::Send { text: text.to_string(), markdown: false, markup: Markup::Plain }
}

fn at(chat_id: i64, hour: u32, minute: u32) -> JobHandlerTask {
    UpdateRegistrationTask { chat_id, mensa_id: None, hour: Some(hour), minute: Some(minute) }.into()
}

#[test]
fn time_with_two_digit_hour() {
    assert_eq!(rex_parse_time("06:00"), Ok((6, 0)));
    assert_eq!(rex_parse_time("19:30"), Ok((19, 30)));
    assert_eq!(rex_parse_time("23:59"), Ok((23, 59)));
}

#[test]
fn time_with_one_digit_hour() {
    assert_eq!(rex_parse_time("6:05"), Ok((6, 5)));
    assert_eq!(rex_parse_time("9:59 Uhr"), Ok((9, 59)));
}

#[test]
fn time_ignores_what_follows() {
    assert_eq!(rex_parse_time("12:345"), Ok((12, 34)));
}

#[test]
fn time_out_of_range_is_invalid() {
    for text in ["24:00", "12:60", "1200", "", ":30", "1:5", "25", " 12:00", "um 12:00", "123:45"] {
        assert_eq!(rex_parse_time(text), Err(TimeParseError::InvalidTimePassed), "{text}");
    }
}

#[test]
fn time_agrees_with_the_regular_expression() {
    let re = Regex::new("^([01]?[0-9]|2[0-3]):([0-5][0-9])").unwrap();
    let letters = ['0', '1', '2', '3', '4', '5', '6', '9', ':', 'x'];
    let mut texts = vec![String::new()];
    for _ in 0..5 {
        let mut longer = Vec::new();
        for text in &texts {
            for c in letters {
                longer.push(format!("{text}{c}"));
            }
        }
        for text in &longer {
            let expected = re
                .captures(text)
                .map(|c| (c[1].parse::<u32>().unwrap(), c[2].parse::<u32>().unwrap()));
            assert_eq!(time_at_start(text), expected, "{text}");
        }
        texts = longer;
    }
}

#[test]
fn every_written_time_is_read_back() {
    for hour in 0..24 {
        for minute in 0..60 {
            assert_eq!(rex_parse_time(&format!("{hour:02}:{minute:02}xyz")), Ok((hour, minute)));
        }
    }
}

#[test]
fn time_announcement() {
    assert_eq!(
        announce(6, 5),
        "Plan wird ab jetzt automatisch an Wochentagen 06:05 Uhr gesendet.\n\n/unsubscribe zum Deaktivieren"
    );
}

#[test]
fn time_step_without_text() {
    assert_eq!(
        parse_time_send_status_msgs(None),
        TimeStep::Finished {
            text: "Bitte mit Uhrzeit antworten:".to_string(),
            result: Err(TimeParseError::NoTimeArgPassed),
        }
    );
}

#[test]
fn time_step_with_time() {
    assert_eq!(
        parse_time_send_status_msgs(Some("7:15")),
        TimeStep::Finished {
            text: announce(7, 15),
            result: Ok(ParsedTimeAndLastMsgFromDialleougueue { hour: 7, minute: 15, msgid: None }),
        }
    );
}

#[test]
fn time_step_asks_the_oracle() {
    assert_eq!(
        parse_time_send_status_msgs(Some("halb acht")),
        TimeStep::AskOracle {
            text: "Das Orakel wird befragt...".to_string(),
            asked: "halb acht".to_string(),
        }
    );
}

#[test]
fn oracle_finds_a_time() {
    assert_eq!(
        oracle_answered(Ok((7, 30)), 99),
        (
            announce(7, 30),
            Ok(ParsedTimeAndLastMsgFromDialleougueue { hour: 7, minute: 30, msgid: Some(99) })
        )
    );
}

#[test]
fn oracle_finds_no_time() {
    for (error, text) in [
        (
            TimeParseError::InvalidTimePassed,
            "Das Orakel verharrt in Ungewissheit.\nBitte erneut:",
        ),
        (
            TimeParseError::OllamaUnavailable,
            "Das Orakel erhört unsere Bitten nicht.\nBitte im Format HH:mm antworten:",
        ),
        (
            TimeParseError::OllamaUnconfigured,
            "Eingegebene Zeit ist ungültig.\nBitte mit Uhrzeit antworten:",
        ),
    ] {
        assert_eq!(oracle_answered(Err(error), 1), (text.to_string(), Err(error)));
    }
}

#[test]
fn oracle_prompt() {
    assert_eq!(
        ai_prompt("halb acht"),
        "Finde EINE Uhrzeit. Antworte NUR 'HH:mm' ODER 'nicht vorhanden'. KEINE ERKLÄRUNG. Eingabe: #halb acht#"
    );
}

#[test]
fn oracle_body() {
    assert_eq!(
        ai_body("\"m\"", "\"p\""),
        "{\"keep_alive\":-1,\"model\":\"m\",\"prompt\":\"p\",\"stream\":false}"
    );
}

#[test]
fn oracle_request_escapes_the_message() {
    let request =
        ai_parse_time("acht\n\"Uhr\" \\ \u{1}", Some("http://127.0.0.1:11434/api"), Some("llama3"))
            .unwrap();
    assert_eq!(request.url, "http://127.0.0.1:11434/api/generate");
    assert_eq!(
        request.body,
        "{\"keep_alive\":-1,\"model\":\"llama3\",\"prompt\":\"Finde EINE Uhrzeit. Antworte NUR 'HH:mm' ODER 'nicht vorhanden'. KEINE ERKLÄRUNG. Eingabe: #acht\\n\\\"Uhr\\\" \\\\ \\u0001#\",\"stream\":false}"
    );
}

#[test]
fn oracle_request_is_valid_json() {
    let all: String = (0u32..0x120).filter_map(char::from_u32).collect();
    let request = ai_parse_time(&all, Some("h"), Some("m")).unwrap();
    let value: serde_json::Value = serde_json::from_str(&request.body).unwrap();
    assert_eq!(value["prompt"].as_str().unwrap(), ai_prompt(&all));
    assert_eq!(value["model"].as_str().unwrap(), "m");
    assert_eq!(value["stream"].as_bool().unwrap(), false);
    assert_eq!(value["keep_alive"].as_i64().unwrap(), -1);
    assert_eq!(value.to_string(), request.body);
}

#[test]
fn oracle_unconfigured() {
    assert_eq!(ai_parse_time("x", None, Some("m")), Err(TimeParseError::OllamaUnconfigured));
    assert_eq!(ai_parse_time("x", Some("h"), None), Err(TimeParseError::OllamaUnconfigured));
}

#[test]
fn oracle_answer() {
    assert_eq!(ai_answer(None), Err(TimeParseError::OllamaUnavailable));
    assert_eq!(ai_answer(Some("nicht vorhanden")), Err(TimeParseError::InvalidTimePassed));
    assert_eq!(ai_answer(Some("07:30")), Ok((7, 30)));
}

#[test]
fn time_dialogue_needs_registration() {
    assert_eq!(
        start_time_dialogue(Some("/uhrzeit 12:00"), None),
        TimeDialogue::Done(vec![plain("Bitte zuerst /start ausführen"), Action::ExitDialogue])
    );
}

#[test]
fn time_dialogue_takes_the_argument() {
    assert_eq!(
        start_time_dialogue(Some("/uhrzeit \t 12:00  "), Some(entry())),
        TimeDialogue::Parse(parse_time_send_status_msgs(Some("12:00")))
    );
    assert_eq!(
        start_time_dialogue(Some("/uhrzeit"), Some(entry())),
        TimeDialogue::Parse(parse_time_send_status_msgs(None))
    );
    assert_eq!(
        start_time_dialogue(None, Some(entry())),
        TimeDialogue::Parse(parse_time_send_status_msgs(None))
    );
}

#[test]
fn time_dialogue_started_orders_or_waits() {
    let time = ParsedTimeAndLastMsgFromDialleougueue { hour: 12, minute: 1, msgid: None };
    assert_eq!(time_dialogue_started(Ok(time), 5), vec![Action::Queue(at(5, 12, 1))]);
    assert_eq!(
        time_dialogue_started(Err(TimeParseError::NoTimeArgPassed), 5),
        vec![Action::UpdateDialogue(DialogueState::AwaitTimeReply)]
    );
}

#[test]
fn time_dialogue_reply() {
    assert_eq!(
        reply_time_dialogue(None),
        TimeDialogue::Done(vec![plain("Das ist kein Text.\nBitte mit Uhrzeit antworten:")])
    );
    assert_eq!(
        reply_time_dialogue(Some(" 12:00")),
        TimeDialogue::Parse(parse_time_send_status_msgs(Some(" 12:00")))
    );
    let time = ParsedTimeAndLastMsgFromDialleougueue { hour: 12, minute: 1, msgid: Some(3) };
    assert_eq!(
        time_dialogue_replied(Ok(time), 5),
        vec![Action::ExitDialogue, Action::Queue(at(5, 12, 1))]
    );
    assert_eq!(time_dialogue_replied(Err(TimeParseError::InvalidTimePassed), 5), vec![]);
}

#[test]
fn time_errors_in_words() {
    assert_eq!(TimeParseError::InvalidTimePassed.text(), "Zeit konnte nicht gelesen werden");
    assert_eq!(TimeParseError::OllamaUnavailable.text(), "Ollama API ist nicht erreichbar");
    assert_eq!(TimeParseError::OllamaUnconfigured.text(), "Ollama API ist nicht konfiguriert");
    assert_eq!(
        TimeParseError::NoTimeArgPassed.text(),
        "Kein optionaler Zeitparam. bei Dialogstart"
    );
}
