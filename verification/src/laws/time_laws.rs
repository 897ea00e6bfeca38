//! Which texts are times of day, and what is said when one was read or was not.
use crate::bot_command_helpers::{
    announcement, body_text, clock_text, is_time_step, json_char, json_chars, json_string,
    oracle_text, prompt_text, time_of, TimeStep,
};
use crate::data_types::{ParsedTimeAndLastMsgFromDialleougueue, TimeParseError};
use crate::text::{dec, digit_char, zero_padded};
use vstd::prelude::*;

verus! {

/// A number below a hundred with two digits.
pub open spec fn two(n: int) -> Seq<char> {
    seq![(('0' as int) + n / 10) as char, (('0' as int) + n % 10) as char]
}

/// A number below ten with one digit.
pub open spec fn one(n: int) -> Seq<char> {
    seq![(('0' as int) + n) as char]
}

/// Whether a text starts with another.
pub open spec fn starts(s: Seq<char>, start: Seq<char>) -> bool {
    start.len() <= s.len() && s.take(start.len() as int) == start
}

/// A text is read as a time of day if and only if it starts with one: an hour below twenty-four, with
/// one digit or two, a colon, and a minute below sixty, with two.
pub proof fn law_time(s: Seq<char>, hour: u32, minute: u32)
    ensures
        time_of(s) == Some((hour, minute)) <==> {
            &&& hour < 24
            &&& minute < 60
            &&& {
                ||| starts(s, two(hour as int) + seq![':'] + two(minute as int))
                ||| hour < 10 && starts(s, one(hour as int) + seq![':'] + two(minute as int))
            }
        },
{
    let (h, m) = (hour as int, minute as int);
    let long = two(h) + seq![':'] + two(m);
    let short = one(h) + seq![':'] + two(m);
    if hour < 24 && minute < 60 && starts(s, long) {
        assert forall|i: int| 0 <= i < 5 implies #[trigger] s[i] == long[i] by {
            assert(s.take(5)[i] == s[i]);
        }
        assert(s[0] == two(h)[0] && s[1] == two(h)[1] && s[2] == ':' && s[3] == two(m)[0] && s[4]
            == two(m)[1]);
        assert(time_of(s) == Some((hour, minute)));
    }
    if hour < 10 && minute < 60 && starts(s, short) {
        assert forall|i: int| 0 <= i < 4 implies #[trigger] s[i] == short[i] by {
            assert(s.take(4)[i] == s[i]);
        }
        assert(s[0] == one(h)[0] && s[1] == ':' && s[2] == two(m)[0] && s[3] == two(m)[1]);
        assert(time_of(s) == Some((hour, minute)));
    }
    if time_of(s) == Some((hour, minute)) {
        if s[1] == ':' {
            assert(s.take(4) == short);
        } else {
            assert(s.take(5) == long);
        }
    }
}

/// A time of day is written with two digits for the hour, a colon, and two for the minute.
pub proof fn law_clock(hour: nat, minute: nat)
    requires
        hour < 100,
        minute < 100,
    ensures
        clock_text(hour, minute) == two(hour as int) + seq![':'] + two(minute as int),
{
    reveal_strlit(":");
    lemma_two(hour);
    lemma_two(minute);
    assert(clock_text(hour, minute) == two(hour as int) + seq![':'] + two(minute as int));
}

proof fn lemma_two(n: nat)
    requires
        n < 100,
    ensures
        zero_padded(dec(n), 2) == two(n as int),
{
    reveal_with_fuel(dec, 3);
    if n < 10 {
        assert(zero_padded(dec(n), 2) == two(n as int));
    } else {
        assert(dec(n) == seq![digit_char((n / 10) as int), digit_char((n % 10) as int)]);
        assert(zero_padded(dec(n), 2) == two(n as int));
    }
}

/// What is said once a time is set names that time.
pub proof fn law_announcement(hour: nat, minute: nat)
    requires
        hour < 100,
        minute < 100,
    ensures
        announcement(hour, minute) == "Plan wird ab jetzt automatisch an Wochentagen "@ + (two(
            hour as int,
        ) + seq![':'] + two(minute as int))
            + " Uhr gesendet.\n\n/unsubscribe zum Deaktivieren"@,
{
    law_clock(hour, minute);
}

/// What comes of a text: its time, with the words that announce it, or the question that the oracle is
/// asked, which is the text itself. Without a text, a time is asked for.
pub proof fn law_time_steps(step: TimeStep, txt: Option<Seq<char>>)
    requires
        is_time_step(step, txt),
    ensures
        txt is None ==> (step matches TimeStep::Finished { text, result } && text@
            == "Bitte mit Uhrzeit antworten:"@ && result == Err::<
            ParsedTimeAndLastMsgFromDialleougueue,
            TimeParseError,
        >(TimeParseError::NoTimeArgPassed)),
        txt is Some && time_of(txt->0) is Some ==> (step matches TimeStep::Finished {
            text,
            result,
        } && result matches Ok(time) && time_of(txt->0) == Some((time.hour, time.minute))
            && time.msgid is None && text@ == announcement(time.hour as nat, time.minute as nat)),
        txt is Some && time_of(txt->0) is None ==> (step matches TimeStep::AskOracle {
            text,
            asked,
        } && text@ == "Das Orakel wird befragt..."@ && asked@ == txt->0),
{
}

/// What is said once the oracle has answered: the time that it named, or what went wrong.
pub proof fn law_oracle(hour: u32, minute: u32)
    ensures
        oracle_text(Ok((hour, minute))) == announcement(hour as nat, minute as nat),
        oracle_text(Err(TimeParseError::InvalidTimePassed))
            == "Das Orakel verharrt in Ungewissheit.\nBitte erneut:"@,
        oracle_text(Err(TimeParseError::OllamaUnavailable))
            == "Das Orakel erhört unsere Bitten nicht.\nBitte im Format HH:mm antworten:"@,
        oracle_text(Err(TimeParseError::OllamaUnconfigured))
            == "Eingegebene Zeit ist ungültig.\nBitte mit Uhrzeit antworten:"@,
{
}

/// The question holds the whole text, between two marks.
pub proof fn law_prompt(txt: Seq<char>)
    ensures
        prompt_text(txt)
            == "Finde EINE Uhrzeit. Antworte NUR 'HH:mm' ODER 'nicht vorhanden'. KEINE ERKLÄRUNG. Eingabe: "@
            + (seq!['#'] + txt + seq!['#']),
{
    reveal_strlit(
        "Finde EINE Uhrzeit. Antworte NUR 'HH:mm' ODER 'nicht vorhanden'. KEINE ERKLÄRUNG. Eingabe: ",
    );
    reveal_strlit(
        "Finde EINE Uhrzeit. Antworte NUR 'HH:mm' ODER 'nicht vorhanden'. KEINE ERKLÄRUNG. Eingabe: #",
    );
    reveal_strlit("#");
}

/// The members of a request's body are in the order of their names, each with its value.
pub proof fn law_body(model: Seq<char>, prompt: Seq<char>)
    ensures
        body_text(model, prompt) == "{\"keep_alive\":"@ + "-1"@ + ",\"model\":"@ + model
            + ",\"prompt\":"@ + prompt + ",\"stream\":"@ + "false"@ + "}"@,
{
    reveal_strlit("{\"keep_alive\":-1,\"model\":");
    reveal_strlit(",\"prompt\":");
    reveal_strlit(",\"stream\":false}");
    reveal_strlit("{\"keep_alive\":");
    reveal_strlit("-1");
    reveal_strlit(",\"model\":");
    reveal_strlit(",\"stream\":");
    reveal_strlit("false");
    reveal_strlit("}");
}

/// What a digit of a number in base sixteen stands for.
pub open spec fn hex_value(c: char) -> int {
    if '0' <= c <= '9' {
        c as int - '0' as int
    } else {
        c as int - 'a' as int + 10
    }
}

/// How a character stands inside a quoted text: as it is, unless it is a quotation mark, a backslash or
/// a control character. Those have a backslash before them, and a letter or their number.
pub proof fn law_quoted_char(c: char)
    ensures
        json_char('"') == seq!['\\', '"'],
        json_char('\\') == seq!['\\', '\\'],
        json_char('\u{8}') == seq!['\\', 'b'],
        json_char('\t') == seq!['\\', 't'],
        json_char('\n') == seq!['\\', 'n'],
        json_char('\u{c}') == seq!['\\', 'f'],
        json_char('\r') == seq!['\\', 'r'],
        c as int >= 32 && c != '"' && c != '\\' ==> json_char(c) == seq![c],
        (c as int) < 32 && json_char(c).len() != 2 ==> {
            &&& json_char(c).len() == 6
            &&& json_char(c).take(4) == seq!['\\', 'u', '0', '0']
            &&& hex_value(json_char(c)[4]) * 16 + hex_value(json_char(c)[5]) == c as int
        },
        (c as int) < 32 && json_char(c).len() == 2 ==> c == '\u{8}' || c == '\t' || c == '\n' || c
            == '\u{c}' || c == '\r',
{
    if (c as int) < 32 && json_char(c).len() != 2 {
        assert(json_char(c).take(4) == seq!['\\', 'u', '0', '0']);
    }
}

/// A quoted text is that of its parts, one after the other, between two quotation marks.
pub proof fn law_quoted(a: Seq<char>, c: char)
    ensures
        json_chars(Seq::empty()) == Seq::<char>::empty(),
        json_chars(a.push(c)) == json_chars(a) + json_char(c),
        json_string(a) == seq!['"'] + json_chars(a) + seq!['"'],
{
    assert(a.push(c).drop_last() == a);
}

} // verus!
