//! Text, Markdown and the calendar.
use chrono::{Datelike, NaiveDate};
use std::collections::BTreeMap;
use stuwe_telegram_rs::calendar::{
    requested_day, requested_day_if_any, time_of_day_now, utc_day_of, utc_of, CalendarDate, RequestedDay,
};
use stuwe_telegram_rs::data_backend::german_date_fmt;
use stuwe_telegram_rs::markdown::{escape_markdown_v2, escape_specials};
use stuwe_telegram_rs::ordered::{keys_i64, keys_u32};
use stuwe_telegram_rs::text::{
    decimal, has_text, padded, parse_small, parse_u32, replace_text, signed_decimal, split,
    split_once, text_before, trim,
};

fn date(year: i32, month: u32, day: u32) -> CalendarDate {
    CalendarDate { year, month, day }
}

#[test]
fn decimals() {
    for n in [0, 7, 10, 99, 1_000_000, u64::MAX] {
        assert_eq!(decimal(n), n.to_string());
        assert_eq!(padded(n, 2), format!("{n:02}"));
    }
    for n in [i64::MIN, -12345, -5, 0, 5, 2024, i64::MAX] {
        assert_eq!(signed_decimal(n, 4), format!("{n:04}"));
    }
}

#[test]
fn unsigned_numbers() {
    for text in ["0", "106", "+7", "007", "4294967295", "4294967296", "", "+", "-1", "1 ", "x"] {
        assert_eq!(parse_u32(text), text.parse::<u32>().ok(), "{text}");
    }
}

#[test]
fn small_signed_numbers() {
    for text in ["0", "-0", "+2", "3", "-2", "-3", "02", "", "-", "+-1", "99999999999999999999"] {
        let expected = text.parse::<i64>().ok().filter(|n| n.abs() <= 2);
        assert_eq!(parse_small(text, 2), expected, "{text}");
    }
}

#[test]
fn searching_and_replacing() {
    for (hay, needle) in [("vegan", "vegan"), ("", "a"), ("aab", "ab"), ("ab", "abc"), ("x", "")] {
        assert_eq!(has_text(hay, needle), hay.contains(needle));
    }
    for (s, pat, rep) in [("aaa", "aa", "b"), ("a&amp;amp;", "&amp;", "&"), ("", "x", "y"), ("äöä", "ä", "")] {
        assert_eq!(replace_text(s, pat, rep), s.replace(pat, rep));
    }
}

#[test]
fn splitting() {
    for s in ["", "a", "a b", " a  b ", "a b c"] {
        let expected: Vec<String> = s.split(' ').map(|p| p.to_string()).collect();
        assert_eq!(split(s, ' '), expected);
        let once = s.split_once(' ').map(|(a, b)| (a.to_string(), b.to_string()));
        assert_eq!(split_once(s, ' '), once);
    }
}

#[test]
fn trimming() {
    for s in ["", " ", "\t a \u{a0}\n", "a b", "\u{3000}x\u{2009}", "\u{200b}x\u{200b}"] {
        assert_eq!(trim(s), s.trim());
    }
    for n in 0..0x3100u32 {
        if let Some(c) = char::from_u32(n) {
            let s = format!("{c}x{c}");
            assert_eq!(trim(&s), s.trim());
        }
    }
}

#[test]
fn order_of_texts() {
    let all = ["", "A", "Mensa Tierklinik", "Mensa am Park", "Mensaria", "a", "ab", "ä", "🌱"];
    for a in all {
        for b in all {
            assert_eq!(text_before(a, b), a < b);
        }
    }
}

#[test]
fn ordered_keys() {
    let u: BTreeMap<u32, ()> = [5, 1, u32::MAX, 0].into_iter().map(|k| (k, ())).collect();
    assert_eq!(keys_u32(&u), vec![0, 1, 5, u32::MAX]);
    let i: BTreeMap<i64, ()> = [5, -1, i64::MIN, 0].into_iter().map(|k| (k, ())).collect();
    assert_eq!(keys_i64(&i), vec![i64::MIN, -1, 0, 5]);
}

#[test]
fn escaping() {
    assert_eq!(escape_specials(".!+-<>()="), "\\.\\!\\+\\-\\<\\>\\(\\)\\=");
    assert_eq!(escape_specials("*_[]~`#|{}"), "*_[]~`#|{}");
    assert_eq!(escape_markdown_v2("a&amp;b&nbsp;c."), "a&b c\\.");
    assert_eq!(escape_markdown_v2("&amp;nbsp;"), " ");
}

#[test]
fn sendable_text_is_escaped() {
    let text = escape_markdown_v2("1.5 + (2-3) = <0>!&amp;");
    let chars: Vec<char> = text.chars().collect();
    for (i, c) in chars.iter().enumerate() {
        if ".!+-<>()=".contains(*c) {
            assert_eq!(chars[i - 1], '\\');
        }
    }
}

#[test]
fn plain_text_is_sent_as_it_is() {
    assert_eq!(escape_markdown_v2("Mensa am Park, heute"), "Mensa am Park, heute");
}

#[test]
fn weekend_gives_way_to_monday() {
    let monday = date(2024, 5, 6);
    for (today, ahead, shown, raised) in [
        (date(2024, 5, 3), 0, date(2024, 5, 3), 0),
        (date(2024, 5, 3), 1, monday, 2),
        (date(2024, 5, 3), 2, monday, 1),
        (date(2024, 5, 4), 0, monday, 2),
        (date(2024, 5, 4), 1, monday, 1),
        (date(2024, 5, 4), 2, monday, 0),
        (date(2024, 5, 5), 0, monday, 1),
        (date(2024, 5, 5), 2, date(2024, 5, 7), 0),
        (date(2024, 2, 28), 1, date(2024, 2, 29), 0),
        (date(2023, 12, 29), 3, date(2024, 1, 1), 0),
        (date(2024, 5, 6), -1, date(2024, 5, 6), 1),
    ] {
        assert_eq!(requested_day(today, ahead), RequestedDay { date: shown, raised });
    }
}

#[test]
fn days_agree_with_the_calendar() {
    let start = NaiveDate::from_ymd_opt(2023, 12, 20).unwrap();
    for i in 0..450 {
        let day = start + chrono::Duration::days(i);
        let today = date(day.year(), day.month(), day.day());
        for ahead in 0..3 {
            let shown = requested_day(today, ahead);
            let mut expected = day + chrono::Duration::days(ahead);
            let raised = match expected.weekday() {
                chrono::Weekday::Sat => 2,
                chrono::Weekday::Sun => 1,
                _ => 0,
            };
            expected += chrono::Duration::days(raised);
            assert_eq!(shown.date, date(expected.year(), expected.month(), expected.day()));
            assert_eq!(shown.raised as i64, raised);
            let text = german_date_fmt(shown.date);
            assert!(text.ends_with(&expected.format("%d.%m.%Y").to_string()));
        }
    }
}

#[test]
fn requests_at_the_ends_of_the_calendar() {
    let today = date(2024, 5, 4);
    assert_eq!(
        requested_day_if_any(today, 0),
        Some(RequestedDay { date: date(2024, 5, 6), raised: 2 })
    );
    assert_eq!(
        requested_day_if_any(today, 2),
        Some(RequestedDay { date: date(2024, 5, 6), raised: 0 })
    );
    assert_eq!(requested_day_if_any(today, i64::MAX), None);
    assert_eq!(requested_day_if_any(today, i64::MIN), None);
    let last = NaiveDate::MAX;
    let last = date(last.year(), last.month(), last.day());
    assert_eq!(requested_day_if_any(last, 1), None);
    assert!(requested_day_if_any(last, -7).is_some());
}

#[test]
fn times_in_utc() {
    for (hour, minute, offset, day, utc) in [
        (6, 5, 0, 0, (6, 5)),
        (6, 5, 7200, 0, (4, 5)),
        (6, 5, 36000, -1, (20, 5)),
        (6, 5, -19800, 0, (11, 35)),
        (23, 30, -3600, 1, (0, 30)),
        (6, 5, 3208, 0, (5, 11)),
        (0, 0, 86399, -1, (0, 0)),
        (23, 59, -86399, 1, (23, 58)),
    ] {
        assert_eq!(utc_of(hour, minute, offset), utc);
        assert_eq!(utc_day_of(hour, minute, offset), day);
    }
    for minute in 0..60 {
        for ahead in [-720, -570, -1, 0, 60, 345, 840] {
            let (h, m) = utc_of(17, minute, ahead * 60);
            assert_eq!(utc_of(h, m, -ahead * 60), (17, minute));
        }
    }
}

#[test]
fn clock_shows_a_time_of_day() {
    let (hour, minute) = time_of_day_now();
    assert!(hour < 24 && minute < 60);
}

#[test]
fn years_outside_of_four_digits() {
    // 10001-01-01 is a Monday.
    assert_eq!(german_date_fmt(date(10001, 1, 1)), "Montag, 01.01.+10001");
    assert!(german_date_fmt(requested_day(date(-3, 1, 4), 0).date).ends_with(".01.-0003"));
}
