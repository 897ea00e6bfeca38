//! The messages that show a plan.
pub mod allergen_lines;
pub mod mm_parser;
pub mod stuwe_parser;

use crate::calendar::{day_month_year, format_date, weekday_number, CalendarDate, RequestedDay};
use crate::markdown::{italic, italic_text};
use crate::text::{dec, owned, padded, signed_decimal, signed_padded, zero_padded};
use vstd::prelude::*;
use vstd::string::StringExecFns;

verus! {

/// How many emojis a plan can be headed with.
pub const EMOJI_COUNT: usize = 7;

/// The emoji with the number `i`.
pub open spec fn emoji_text(i: int) -> Seq<char> {
    if i == 0 {
        "☀️"@
    } else if i == 1 {
        "🦀"@
    } else if i == 2 {
        "💂🏻‍♀️"@
    } else if i == 3 {
        "☕️"@
    } else if i == 4 {
        "☝🏻"@
    } else if i == 5 {
        "🌤️"@
    } else {
        "🥦"@
    }
}

/// The emoji with the number `i`.
pub fn emoji(i: usize) -> (r: &'static str)
    requires
        i < EMOJI_COUNT,
    ensures
        r@ == emoji_text(i as int),
{
    match i {
        0 => "☀️",
        1 => "🦀",
        2 => "💂🏻‍♀️",
        3 => "☕️",
        4 => "☝🏻",
        5 => "🌤️",
        _ => "🥦",
    }
}

/// The German name of a working day.
pub open spec fn weekday_name(weekday: int) -> Seq<char> {
    if weekday == 0 {
        "Montag"@
    } else if weekday == 1 {
        "Dienstag"@
    } else if weekday == 2 {
        "Mittwoch"@
    } else if weekday == 3 {
        "Donnerstag"@
    } else {
        "Freitag"@
    }
}

/// A working day as a German reader writes it.
pub open spec fn german_date(date: CalendarDate) -> Seq<char> {
    weekday_name(date.weekday()) + ", "@ + day_month_year(date)
}

/// A working day as a German reader writes it.
pub fn german_date_fmt(date: CalendarDate) -> (r: String)
    requires
        date.valid(),
        date.weekday() < 5,
    ensures
        r@ == german_date(date),
{
    let name = match weekday_number(date) {
        0 => "Montag",
        1 => "Dienstag",
        2 => "Mittwoch",
        3 => "Donnerstag",
        _ => "Freitag",
    };
    let mut r = owned(name);
    r.append(", ");
    r.append(format_date(date, "%d.%m.%Y").as_str());
    r
}

/// A day as the services want it: year, month and day with dashes between them.
pub open spec fn iso_date(date: CalendarDate) -> Seq<char> {
    signed_padded(date.year as int, 4) + "-"@ + zero_padded(dec(date.month as nat), 2) + "-"@
        + zero_padded(dec(date.day as nat), 2)
}

/// A day as the services want it.
pub fn build_date_string(date: CalendarDate) -> (r: String)
    ensures
        r@ == iso_date(date),
{
    let mut r = signed_decimal(date.year as i64, 4);
    r.append("-");
    r.append(padded(date.month as u64, 2).as_str());
    r.append("-");
    r.append(padded(date.day as u64, 2).as_str());
    r
}

/// One line: `prefix`, `text`, and the end of the line.
pub open spec fn line_text(prefix: Seq<char>, text: Seq<char>) -> Seq<char> {
    prefix + text + "\n"@
}

/// One line: `prefix`, `text`, and the end of the line.
pub fn line(prefix: &str, text: &str) -> (r: String)
    ensures
        r@ == line_text(prefix@, text@),
{
    let mut r = owned(prefix);
    r.append(text);
    r.append("\n");
    r
}

/// The hint that the plan for "today" is one for the Monday to come.
pub open spec fn raise_hint(days_forward: int, raised: int) -> Seq<char> {
    if days_forward == 0 && raised == 1 {
        italic_text("      (Morgen)\n"@)
    } else if days_forward == 0 && raised == 2 {
        italic_text("      (Übermorgen)\n"@)
    } else {
        Seq::empty()
    }
}

/// The lines above a plan: the day between two emojis, and the hint.
pub open spec fn head_text(emoji: Seq<char>, day: RequestedDay, days_forward: int) -> Seq<char> {
    emoji + " "@ + german_date(day.date) + " "@ + emoji + "\n"@ + raise_hint(
        days_forward,
        day.raised as int,
    )
}

/// The lines above a plan.
pub fn plan_head(emoji_index: usize, day: RequestedDay, days_forward: i64) -> (r: String)
    requires
        emoji_index < EMOJI_COUNT,
        day.date.valid(),
        day.date.weekday() < 5,
    ensures
        r@ == head_text(emoji_text(emoji_index as int), day, days_forward as int),
{
    let sign = emoji(emoji_index);
    let mut r = owned(sign);
    r.append(" ");
    r.append(german_date_fmt(day.date).as_str());
    r.append(" ");
    r.append(sign);
    r.append("\n");
    let hint = if days_forward == 0 && day.raised == 1 {
        italic("      (Morgen)\n")
    } else if days_forward == 0 && day.raised == 2 {
        italic("      (Übermorgen)\n")
    } else {
        String::new()
    };
    r.append(hint.as_str());
    r
}

} // verus!
