//! Reading a time of day from what a user writes.
use crate::actions::{plain, send_plain, views, Action, ActionView, Markup};
use crate::constants::NO_DB_MSG;
use crate::data_types::{
    MensaKeyboardAction, ParsedTimeAndLastMsgFromDialleougueue, RegistrationEntry, TimeParseError,
};
use crate::text::{
    chars_of, dec, digit_char, digit_value, is_digit, owned, padded, value_of_digit, zero_padded,
};
use vstd::prelude::*;
use vstd::string::StringExecFns;

verus! {

// ---------------------------------------------------------------------------------------------
// The grammar of a time of day
// ---------------------------------------------------------------------------------------------

/// Whether `s` goes on at `i` with a colon and two digits that are a minute.
pub open spec fn minute_at(s: Seq<char>, i: int) -> bool {
    &&& i + 2 < s.len()
    &&& s[i] == ':'
    &&& '0' <= s[i + 1] <= '5'
    &&& is_digit(s[i + 2])
}

/// The number that two digits are.
pub open spec fn two_digits(a: char, b: char) -> int {
    digit_value(a) * 10 + digit_value(b)
}

/// The time of day at the start of a text: an hour of one or two digits, a colon, and a minute of
/// two digits. What follows does not matter.
pub open spec fn time_of(s: Seq<char>) -> Option<(u32, u32)> {
    if s.len() > 1 && (('0' <= s[0] <= '1' && is_digit(s[1])) || (s[0] == '2' && '0' <= s[1]
        <= '3')) && minute_at(s, 2) {
        Some((two_digits(s[0], s[1]) as u32, two_digits(s[3], s[4]) as u32))
    } else if s.len() > 0 && is_digit(s[0]) && minute_at(s, 1) {
        Some((digit_value(s[0]) as u32, two_digits(s[2], s[3]) as u32))
    } else {
        None
    }
}

fn minute_from(v: &Vec<char>, i: usize) -> (r: Option<u32>)
    requires
        i <= 2,
    ensures
        r == if minute_at(v@, i as int) {
            Some(two_digits(v@[i + 1], v@[i + 2]) as u32)
        } else {
            None
        },
{
    if i + 2 < v.len() && v[i] == ':' && '0' <= v[i + 1] && v[i + 1] <= '5' && '0' <= v[i + 2]
        && v[i + 2] <= '9' {
        Some(value_of_digit(v[i + 1]) * 10 + value_of_digit(v[i + 2]))
    } else {
        None
    }
}

/// Reads the time of day at the start of a text.
pub fn time_at_start(txt: &str) -> (r: Option<(u32, u32)>)
    ensures
        r == time_of(txt@),
{
    let v = chars_of(txt);
    if v.len() > 1 && (('0' <= v[0] && v[0] <= '1' && '0' <= v[1] && v[1] <= '9') || (v[0] == '2'
        && '0' <= v[1] && v[1] <= '3')) {
        match minute_from(&v, 2) {
            Some(minute) => {
                return Some((value_of_digit(v[0]) * 10 + value_of_digit(v[1]), minute));
            },
            None => {},
        }
    }
    if v.len() > 0 && '0' <= v[0] && v[0] <= '9' {
        match minute_from(&v, 1) {
            Some(minute) => Some((value_of_digit(v[0]), minute)),
            None => None,
        }
    } else {
        None
    }
}

/// Reads the time of day at the start of a text.
pub fn rex_parse_time(txt: &str) -> (r: Result<(u32, u32), TimeParseError>)
    ensures
        r == match time_of(txt@) {
            Some(time) => Ok::<(u32, u32), TimeParseError>(time),
            None => Err(TimeParseError::InvalidTimePassed),
        },
{
    match time_at_start(txt) {
        Some(time) => Ok(time),
        None => Err(TimeParseError::InvalidTimePassed),
    }
}

/// A time of day with two digits for the hour and for the minute.
pub open spec fn clock_text(hour: nat, minute: nat) -> Seq<char> {
    zero_padded(dec(hour), 2) + ":"@ + zero_padded(dec(minute), 2)
}

/// Whatever is read is a time of day.
pub proof fn law_time_in_range(s: Seq<char>)
    ensures
        time_of(s) matches Some((hour, minute)) ==> hour < 24 && minute < 60,
{
}

/// A text that starts with no digit holds no time.
pub proof fn law_time_starts_with_digit(s: Seq<char>)
    ensures
        time_of(s) is Some ==> s.len() >= 4 && is_digit(s[0]),
{
}

proof fn lemma_two_digit_number(n: nat)
    requires
        n < 100,
    ensures
        zero_padded(dec(n), 2) == seq![digit_char((n / 10) as int), digit_char((n % 10) as int)],
{
    reveal_with_fuel(dec, 3);
    if n < 10 {
        assert(zero_padded(dec(n), 2) == seq!['0', digit_char(n as int)]);
    } else {
        assert(dec(n) == seq![digit_char((n / 10) as int), digit_char((n % 10) as int)]);
    }
}

/// A time of day that is written out comes back when it is read, whatever stands behind it.
pub proof fn law_time_round_trip(hour: nat, minute: nat, rest: Seq<char>)
    requires
        hour < 24,
        minute < 60,
    ensures
        time_of(clock_text(hour, minute) + rest) == Some((hour as u32, minute as u32)),
{
    reveal_strlit(":");
    lemma_two_digit_number(hour);
    lemma_two_digit_number(minute);
    let s = clock_text(hour, minute) + rest;
    assert(s[0] == digit_char((hour / 10) as int));
    assert(s[1] == digit_char((hour % 10) as int));
    assert(s[2] == ':');
    assert(s[3] == digit_char((minute / 10) as int));
    assert(s[4] == digit_char((minute % 10) as int));
}

// ---------------------------------------------------------------------------------------------
// The dialogue about the time
// ---------------------------------------------------------------------------------------------

/// The announcement of a new time.
pub open spec fn announcement(hour: nat, minute: nat) -> Seq<char> {
    "Plan wird ab jetzt automatisch an Wochentagen "@ + clock_text(hour, minute)
        + " Uhr gesendet.\n\n/unsubscribe zum Deaktivieren"@
}

/// The announcement of a new time.
pub fn announce(hour: u32, minute: u32) -> (r: String)
    ensures
        r@ == announcement(hour as nat, minute as nat),
{
    let mut clock = padded(hour as u64, 2);
    clock.append(":");
    clock.append(padded(minute as u64, 2).as_str());
    let mut r = owned("Plan wird ab jetzt automatisch an Wochentagen ");
    r.append(clock.as_str());
    r.append(" Uhr gesendet.\n\n/unsubscribe zum Deaktivieren");
    r
}

/// How far the reading of a time has come.
#[derive(Debug, PartialEq)]
pub enum TimeStep {
    /// It is over: this text is sent, and this is the result.
    Finished {
        text: String,
        result: Result<ParsedTimeAndLastMsgFromDialleougueue, TimeParseError>,
    },
    /// This text is sent, and then the language model is asked for a time in what was written.
    AskOracle { text: String, asked: String },
}

/// What is sent.
pub open spec fn step_text(txt: Option<Seq<char>>) -> Seq<char> {
    match txt {
        None => "Bitte mit Uhrzeit antworten:"@,
        Some(s) => match time_of(s) {
            Some((hour, minute)) => announcement(hour as nat, minute as nat),
            None => "Das Orakel wird befragt..."@,
        },
    }
}

/// What comes out, if the language model is not needed for it.
pub open spec fn step_result(txt: Option<Seq<char>>) -> Option<
    Result<ParsedTimeAndLastMsgFromDialleougueue, TimeParseError>,
> {
    match txt {
        None => Some(Err(TimeParseError::NoTimeArgPassed)),
        Some(s) => match time_of(s) {
            Some((hour, minute)) => Some(
                Ok(ParsedTimeAndLastMsgFromDialleougueue { hour, minute, msgid: None }),
            ),
            None => None,
        },
    }
}

/// The contents of an optional text.
pub open spec fn optional_text(txt: Option<&str>) -> Option<Seq<char>> {
    match txt {
        Some(s) => Some(s@),
        None => None,
    }
}

/// Whether `step` is how far one comes with a text.
pub open spec fn is_time_step(step: TimeStep, txt: Option<Seq<char>>) -> bool {
    match step {
        TimeStep::Finished { text, result } => text@ == step_text(txt) && step_result(txt) == Some(
            result,
        ),
        TimeStep::AskOracle { text, asked } => text@ == step_text(txt) && step_result(txt) is None
            && txt == Some(asked@),
    }
}

/// Takes a time from a message, as far as that goes without help.
pub fn parse_time_send_status_msgs(txt: Option<&str>) -> (r: TimeStep)
    ensures
        is_time_step(r, optional_text(txt)),
{
    match txt {
        None => TimeStep::Finished {
            text: owned("Bitte mit Uhrzeit antworten:"),
            result: Err(TimeParseError::NoTimeArgPassed),
        },
        Some(s) => match time_at_start(s) {
            Some((hour, minute)) => TimeStep::Finished {
                text: announce(hour, minute),
                result: Ok(ParsedTimeAndLastMsgFromDialleougueue { hour, minute, msgid: None }),
            },
            None => TimeStep::AskOracle {
                text: owned("Das Orakel wird befragt..."),
                asked: owned(s),
            },
        },
    }
}

/// What the message about the question to the language model is changed to.
pub open spec fn oracle_text(answer: Result<(u32, u32), TimeParseError>) -> Seq<char> {
    match answer {
        Ok((hour, minute)) => announcement(hour as nat, minute as nat),
        Err(TimeParseError::InvalidTimePassed) =>
            "Das Orakel verharrt in Ungewissheit.\nBitte erneut:"@,
        Err(TimeParseError::OllamaUnavailable) =>
            "Das Orakel erhört unsere Bitten nicht.\nBitte im Format HH:mm antworten:"@,
        Err(_) => "Eingegebene Zeit ist ungültig.\nBitte mit Uhrzeit antworten:"@,
    }
}

/// What comes out after the language model was asked: the text that its message is changed to, and
/// the time or the reason why there is none.
pub fn oracle_answered(answer: Result<(u32, u32), TimeParseError>, oracle_msgid: i32) -> (r: (
    String,
    Result<ParsedTimeAndLastMsgFromDialleougueue, TimeParseError>,
))
    requires
        answer != Err::<(u32, u32), TimeParseError>(TimeParseError::NoTimeArgPassed),
    ensures
        r.0@ == oracle_text(answer),
        r.1 == match answer {
            Ok((hour, minute)) => Ok::<_, TimeParseError>(
                (ParsedTimeAndLastMsgFromDialleougueue {
                    hour,
                    minute,
                    msgid: Some(oracle_msgid),
                }),
            ),
            Err(e) => Err(e),
        },
{
    match answer {
        Ok((hour, minute)) => (
            announce(hour, minute),
            Ok(
                ParsedTimeAndLastMsgFromDialleougueue {
                    hour,
                    minute,
                    msgid: Some(oracle_msgid),
                },
            ),
        ),
        Err(TimeParseError::InvalidTimePassed) => (
            owned("Das Orakel verharrt in Ungewissheit.\nBitte erneut:"),
            Err(TimeParseError::InvalidTimePassed),
        ),
        Err(TimeParseError::OllamaUnavailable) => (
            owned("Das Orakel erhört unsere Bitten nicht.\nBitte im Format HH:mm antworten:"),
            Err(TimeParseError::OllamaUnavailable),
        ),
        Err(e) => (
            owned("Eingegebene Zeit ist ungültig.\nBitte mit Uhrzeit antworten:"),
            Err(e),
        ),
    }
}

// ---------------------------------------------------------------------------------------------
// The question to the language model
// ---------------------------------------------------------------------------------------------

/// The question for a time in a text.
pub open spec fn prompt_text(txt: Seq<char>) -> Seq<char> {
    "Finde EINE Uhrzeit. Antworte NUR 'HH:mm' ODER 'nicht vorhanden'. KEINE ERKLÄRUNG. Eingabe: #"@
        + txt + "#"@
}

/// The question for a time in a text.
pub fn ai_prompt(txt: &str) -> (r: String)
    ensures
        r@ == prompt_text(txt@),
{
    let mut r = owned(
        "Finde EINE Uhrzeit. Antworte NUR 'HH:mm' ODER 'nicht vorhanden'. KEINE ERKLÄRUNG. Eingabe: #",
    );
    r.append(txt);
    r.append("#");
    r
}

/// A digit of the hexadecimal system.
pub open spec fn hex_digit(d: int) -> char {
    if d < 10 {
        (('0' as int) + d) as char
    } else {
        (('a' as int) + d - 10) as char
    }
}

/// A character inside a JSON string: quotes, backslashes and control characters are escaped.
pub open spec fn json_char(c: char) -> Seq<char> {
    if c == '"' || c == '\\' {
        seq!['\\', c]
    } else if c == '\u{8}' {
        seq!['\\', 'b']
    } else if c == '\t' {
        seq!['\\', 't']
    } else if c == '\n' {
        seq!['\\', 'n']
    } else if c == '\u{c}' {
        seq!['\\', 'f']
    } else if c == '\r' {
        seq!['\\', 'r']
    } else if 32 > (c as int) {
        seq!['\\', 'u', '0', '0', hex_digit(c as int / 16), hex_digit(c as int % 16)]
    } else {
        seq![c]
    }
}

/// The characters inside a JSON string.
pub open spec fn json_chars(s: Seq<char>) -> Seq<char>
    decreases s.len(),
{
    if s.len() == 0 {
        Seq::empty()
    } else {
        json_chars(s.drop_last()) + json_char(s.last())
    }
}

/// A text as a JSON string.
pub open spec fn json_string(s: Seq<char>) -> Seq<char> {
    seq!['"'] + json_chars(s) + seq!['"']
}

/// `serde_json::to_string` writes a text as a JSON string: between quotes, with quotes, backslashes
/// and control characters escaped as `json_char` says, and with every other character as it is.
#[verifier::external_body]
fn to_json_string(s: &str) -> (r: String)
    ensures
        r@ == json_string(s@),
{
    serde_json::to_string(s).unwrap()
}

/// The body of the question, from the model's name and the prompt, both as JSON strings.
pub open spec fn body_text(model: Seq<char>, prompt: Seq<char>) -> Seq<char> {
    "{\"keep_alive\":-1,\"model\":"@ + model + ",\"prompt\":"@ + prompt + ",\"stream\":false}"@
}

/// The body of the question, from the model's name and the prompt, both as JSON strings.
pub fn ai_body(model: &str, prompt: &str) -> (r: String)
    ensures
        r@ == body_text(model@, prompt@),
{
    let mut r = owned("{\"keep_alive\":-1,\"model\":");
    r.append(model);
    r.append(",\"prompt\":");
    r.append(prompt);
    r.append(",\"stream\":false}");
    r
}

/// A question to the language model: where it is put, and its body.
#[derive(Debug, Clone, PartialEq)]
pub struct AiRequest {
    pub url: String,
    pub body: String,
}

/// The question for a time in `txt`. There is none unless both a host and a model are configured.
pub fn ai_parse_time(txt: &str, ollama_host: Option<&str>, ollama_model: Option<&str>) -> (r: Result<
    AiRequest,
    TimeParseError,
>)
    ensures
        match (ollama_host, ollama_model) {
            (Some(host), Some(model)) => {
                &&& r matches Ok(request)
                &&& request.url@ == host@ + "/generate"@
                &&& request.body@ == body_text(
                    json_string(model@),
                    json_string(prompt_text(txt@)),
                )
            },
            _ => r == Err::<AiRequest, TimeParseError>(TimeParseError::OllamaUnconfigured),
        },
{
    match (ollama_host, ollama_model) {
        (Some(host), Some(model)) => {
            let mut url = owned(host);
            url.append("/generate");
            let body = ai_body(
                to_json_string(model).as_str(),
                to_json_string(ai_prompt(txt).as_str()).as_str(),
            );
            Ok(AiRequest { url, body })
        },
        _ => Err(TimeParseError::OllamaUnconfigured),
    }
}

/// What the language model's answer comes to; `None` if it could not be reached.
pub fn ai_answer(response: Option<&str>) -> (r: Result<(u32, u32), TimeParseError>)
    ensures
        r == match response {
            None => Err::<(u32, u32), TimeParseError>(TimeParseError::OllamaUnavailable),
            Some(txt) => match time_of(txt@) {
                Some(time) => Ok(time),
                None => Err(TimeParseError::InvalidTimePassed),
            },
        },
{
    match response {
        None => Err(TimeParseError::OllamaUnavailable),
        Some(txt) => rex_parse_time(txt),
    }
}

// ---------------------------------------------------------------------------------------------
// Picking a canteen
// ---------------------------------------------------------------------------------------------

/// The canteens to pick from, for a chat that has been entered.
pub open spec fn mensa_choice(
    registration: Option<RegistrationEntry>,
    disp_or_update: MensaKeyboardAction,
) -> Seq<ActionView> {
    if registration is Some {
        seq![
            ActionView::Send {
                text: "Mensa auswählen:"@,
                markdown: false,
                markup: Markup::Mensen(disp_or_update),
            },
        ]
    } else {
        seq![plain(NO_DB_MSG@)]
    }
}

/// Offers the canteens to pick from, to a chat that has been entered.
pub fn mensa_disp_or_upd(
    registration: Option<RegistrationEntry>,
    disp_or_update: MensaKeyboardAction,
) -> (r: Vec<Action>)
    ensures
        views(r@) == mensa_choice(registration, disp_or_update),
{
    let action = if registration.is_some() {
        Action::Send {
            text: owned("Mensa auswählen:"),
            markdown: false,
            markup: Markup::Mensen(disp_or_update),
        }
    } else {
        send_plain(NO_DB_MSG)
    };
    vec![action]
}

} // verus!
