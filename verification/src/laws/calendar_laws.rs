//! Days, how they are written, and where their plans are asked for.
use crate::calendar::{
    answers_request, day_month_year, days_before_month, days_before_year, days_in_month,
    law_first_working_day, max_number, min_number, weekday_of, year_text, CalendarDate,
    RequestedDay, MAX_YEAR,
};
use crate::data_backend::mm_parser::mm_meals_address;
use crate::data_backend::stuwe_parser::{meals_address, mensen_map};
use crate::data_backend::{german_date, iso_date, weekday_name};
use crate::data_types::mm_data_types::GetMensasMensa;
use crate::data_types::Backend;
use crate::laws::text_laws::{joined, law_padded_number, law_parts_of_joined, law_signed_number};
use crate::lines::free_of;
use crate::shared_main::{is_plan_request, PlanRequest};
use crate::text::{
    all_digits, dec, digits_value, is_digit, lemma_decimal_round_trip, parts, signed_padded,
    zero_padded,
};
use vstd::prelude::*;

verus! {

// ---------------------------------------------------------------------------------------------
// Days
// ---------------------------------------------------------------------------------------------

/// The day after a day is the next one of the month, the first one of the next month, or the first of
/// January. It has the next number and the next weekday, which repeat every seven days.
pub proof fn law_next_day(day: CalendarDate, next: CalendarDate)
    requires
        1 <= day.month <= 12,
        ({
            let year = day.year as int;
            let leap = year % 400 == 0 || (year % 4 == 0 && year % 100 != 0);
            let february = if leap {
                29int
            } else {
                28
            };
            let last = seq![31, february, 31, 30, 31, 30, 31, 31, 30, 31, 30, 31int][day.month - 1];
            if day.day < last {
                next.year == day.year && next.month == day.month && next.day == day.day + 1
            } else if day.month < 12 {
                day.day == last && next.year == day.year && next.month == day.month + 1 && next.day
                    == 1
            } else {
                day.day == last && next.year == day.year + 1 && next.month == 1 && next.day == 1
            }
        }),
    ensures
        next.number() == day.number() + 1,
        day.valid() && next.year <= MAX_YEAR ==> next.valid(),
        next.weekday() == (day.weekday() + 1) % 7,
{
    let year = day.year as int;
    if day.month == 12 && next.month == 1 {
        lemma_december(year);
    } else {
        assert(days_in_month(year, day.month as int) == seq![
            31,
            days_in_month(year, 2),
            31,
            30,
            31,
            30,
            31,
            31,
            30,
            31,
            30,
            31int,
        ][day.month - 1]);
    }
}

proof fn lemma_december(year: int)
    ensures
        days_before_year(year + 1) == days_before_year(year) + days_before_month(year, 12) + 31,
        days_before_month(year, 1) == 0,
        days_before_month(year + 1, 1) == 0,
{
    crate::calendar::lemma_year_length(year);
}

/// The first of January of the year 1 was a Monday, and it is the day from which days are counted.
pub proof fn law_first_day(day: CalendarDate)
    requires
        day.year == 1,
        day.month == 1,
        day.day == 1,
    ensures
        day.number() == 1,
        day.weekday() == 0,
{
}

/// The plan that is shown is that of the first working day on or after the one that was asked for. A
/// plan that would lie outside of the calendar is not shown, and no other.
pub proof fn law_requested_day(
    today: CalendarDate,
    days_forward: int,
    r: Option<RequestedDay>,
)
    requires
        today.valid(),
        answers_request(today, days_forward, r),
    ensures
        match r {
            Some(shown) => {
                let asked = today.number() + days_forward;
                &&& shown.date.valid()
                &&& shown.date.weekday() < 5
                &&& shown.date.number() == asked + shown.raised
                &&& forall|d: int|
                    asked <= d < shown.date.number() ==> #[trigger] weekday_of(d) >= 5
            },
            None => {
                let asked = today.number() + days_forward;
                asked < min_number() || asked + 2 > max_number()
            },
        },
{
    law_first_working_day(today.number() + days_forward);
}

// ---------------------------------------------------------------------------------------------
// How days are written
// ---------------------------------------------------------------------------------------------

proof fn lemma_two_digits(n: nat)
    requires
        n < 100,
    ensures
        zero_padded(dec(n), 2).len() == 2,
        all_digits(zero_padded(dec(n), 2)),
        digits_value(zero_padded(dec(n), 2)) == n,
{
    law_padded_number(n, 2);
    reveal_with_fuel(dec, 3);
}

proof fn lemma_four_digits(n: nat)
    requires
        n < 10000,
    ensures
        zero_padded(dec(n), 4).len() == 4,
        all_digits(zero_padded(dec(n), 4)),
        digits_value(zero_padded(dec(n), 4)) == n,
{
    law_padded_number(n, 4);
    reveal_with_fuel(dec, 5);
}

/// A day is written as its year, month and day, with four, two and two digits and a dash between them.
pub proof fn law_iso_date(date: CalendarDate)
    requires
        0 <= date.year <= 9999,
        date.month < 100,
        date.day < 100,
    ensures
        ({
            let s = iso_date(date);
            &&& s.len() == 10
            &&& s[4] == '-' && s[7] == '-'
            &&& all_digits(s.subrange(0, 4)) && digits_value(s.subrange(0, 4)) == date.year
            &&& all_digits(s.subrange(5, 7)) && digits_value(s.subrange(5, 7)) == date.month
            &&& all_digits(s.subrange(8, 10)) && digits_value(s.subrange(8, 10)) == date.day
        }),
{
    reveal_strlit("-");
    lemma_four_digits(date.year as nat);
    lemma_two_digits(date.month as nat);
    lemma_two_digits(date.day as nat);
    let s = iso_date(date);
    assert(s.subrange(0, 4) == zero_padded(dec(date.year as nat), 4));
    assert(s.subrange(5, 7) == zero_padded(dec(date.month as nat), 2));
    assert(s.subrange(8, 10) == zero_padded(dec(date.day as nat), 2));
}

/// A German reader sees the weekday, and then day, month and year, with two, two and four digits and a
/// dot between them.
pub proof fn law_german_date(date: CalendarDate)
    requires
        0 <= date.year <= 9999,
        date.month < 100,
        date.day < 100,
        0 <= date.weekday() < 5,
    ensures
        ({
            let name = seq!["Montag"@, "Dienstag"@, "Mittwoch"@, "Donnerstag"@, "Freitag"@][
                date.weekday()
            ];
            let s = german_date(date);
            let n = name.len() as int;
            &&& s.len() == n + 12
            &&& s.take(n) == name
            &&& s[n] == ',' && s[n + 1] == ' ' && s[n + 4] == '.' && s[n + 7] == '.'
            &&& all_digits(s.subrange(n + 2, n + 4)) && digits_value(s.subrange(n + 2, n + 4))
                == date.day
            &&& all_digits(s.subrange(n + 5, n + 7)) && digits_value(s.subrange(n + 5, n + 7))
                == date.month
            &&& all_digits(s.skip(n + 8)) && digits_value(s.skip(n + 8)) == date.year
        }),
{
    reveal_strlit(", ");
    lemma_four_digits(date.year as nat);
    lemma_two_digits(date.month as nat);
    lemma_two_digits(date.day as nat);
    let name = weekday_name(date.weekday());
    let n = name.len() as int;
    let s = german_date(date);
    let d = day_month_year(date);
    assert(d.subrange(0, 2) == zero_padded(dec(date.day as nat), 2));
    assert(d.subrange(3, 5) == zero_padded(dec(date.month as nat), 2));
    assert(d.skip(6) == zero_padded(dec(date.year as nat), 4));
    assert(s.take(n) == name);
    assert(s.skip(n + 2) == d);
    assert(s.subrange(n + 2, n + 4) == d.subrange(0, 2));
    assert(s.subrange(n + 5, n + 7) == d.subrange(3, 5));
    assert(s.skip(n + 8) == d.skip(6));
}

/// A year outside of four digits is written with a sign, and with all of its digits.
pub proof fn law_other_years(date: CalendarDate)
    requires
        date.year < 0 || date.year > 9999,
        date.month < 100,
        date.day < 100,
    ensures
        ({
            let s = day_month_year(date).skip(6);
            &&& s.len() >= 5
            &&& s[0] == if date.year < 0 {
                '-'
            } else {
                '+'
            }
            &&& all_digits(s.skip(1))
            &&& digits_value(s.skip(1)) == if date.year < 0 {
                -date.year
            } else {
                date.year as int
            }
        }),
{
    lemma_two_digits(date.month as nat);
    lemma_two_digits(date.day as nat);
    let amount = if date.year < 0 {
        (-date.year) as nat
    } else {
        date.year as nat
    };
    law_padded_number(amount, 4);
    assert(day_month_year(date).skip(6) == year_text(date.year as int));
    assert(year_text(date.year as int).skip(1) == zero_padded(dec(amount), 4));
}

// ---------------------------------------------------------------------------------------------
// Where plans are asked for
// ---------------------------------------------------------------------------------------------

proof fn lemma_digits_free(s: Seq<char>)
    requires
        all_digits(s),
    ensures
        free_of(s, '/'),
{
    assert forall|i: int| 0 <= i < s.len() implies #[trigger] s[i] != '/' by {
        assert(is_digit(s[i]));
    }
}

/// A written day holds no slash.
pub proof fn lemma_iso_date_free(date: CalendarDate)
    ensures
        free_of(iso_date(date), '/'),
{
    reveal_strlit("-");
    law_signed_number(date.year as int, 4);
    law_padded_number(date.month as nat, 2);
    law_padded_number(date.day as nat, 2);
    lemma_digits_free(zero_padded(dec(date.month as nat), 2));
    lemma_digits_free(zero_padded(dec(date.day as nat), 2));
    let year = signed_padded(date.year as int, 4);
    if date.year < 0 {
        lemma_digits_free(year.skip(1));
        assert forall|i: int| 0 <= i < year.len() implies #[trigger] year[i] != '/' by {
            if i > 0 {
                assert(year.skip(1)[i - 1] == year[i]);
            }
        }
    } else {
        lemma_digits_free(year);
    }
}

/// The address of a plan at the Studentenwerk is that of the service and a path in which the canteen and
/// the day stand, each behind the word for it.
pub proof fn law_stuwe_address(api_url: Seq<char>, mensa: nat, date: CalendarDate)
    ensures
        api_url.is_prefix_of(meals_address(api_url, mensa, date)),
        parts(meals_address(api_url, mensa, date).skip(api_url.len() as int), '/') == seq![
            ""@,
            "canteens"@,
            dec(mensa),
            "days"@,
            iso_date(date),
        ],
{
    reveal_strlit("");
    reveal_strlit("canteens");
    reveal_strlit("days");
    reveal_strlit("/canteens/");
    reveal_strlit("/days/");
    lemma_decimal_round_trip(mensa);
    lemma_digits_free(dec(mensa));
    lemma_iso_date_free(date);
    let all = seq![""@, "canteens"@, dec(mensa), "days"@, iso_date(date)];
    let path = meals_address(api_url, mensa, date).skip(api_url.len() as int);
    lemma_joined_five(all, '/');
    assert(path == "/canteens/"@ + dec(mensa) + "/days/"@ + iso_date(date));
    assert(path == all[0] + seq!['/'] + all[1] + seq!['/'] + all[2] + seq!['/'] + all[3] + seq!['/']
        + all[4]);
    assert forall|i: int| 0 <= i < all.len() implies free_of(#[trigger] all[i], '/') by {
        assert(i == 0 || i == 1 || i == 2 || i == 3 || i == 4);
    }
    law_parts_of_joined(all, '/');
}

proof fn lemma_joined_five(all: Seq<Seq<char>>, sep: char)
    requires
        all.len() == 5,
    ensures
        joined(all, sep) == all[0] + seq![sep] + all[1] + seq![sep] + all[2] + seq![sep] + all[3]
            + seq![sep] + all[4],
{
    reveal_with_fuel(joined, 6);
    let (four, three, two, one) = (
        all.drop_last(),
        all.drop_last().drop_last(),
        all.drop_last().drop_last().drop_last(),
        all.drop_last().drop_last().drop_last().drop_last(),
    );
    assert(joined(one, sep) == all[0]);
    assert(joined(two, sep) == all[0] + seq![sep] + all[1]);
    assert(joined(three, sep) == all[0] + seq![sep] + all[1] + seq![sep] + all[2]);
    assert(joined(four, sep) == all[0] + seq![sep] + all[1] + seq![sep] + all[2] + seq![sep]
        + all[3]);
}

/// The address of a plan at MensiMates ends in the day, the word for the canteen, and the canteen.
pub proof fn law_mm_address(mensa: nat, date: CalendarDate)
    ensures
        ({
            let start = "https://api.cyber-biene.de/mensaHub/meal/servingDate"@;
            let address = mm_meals_address(mensa, date);
            &&& start.is_prefix_of(address)
            &&& parts(address.skip(start.len() as int), '/') == seq![
                ""@,
                iso_date(date),
                "fromMensa"@,
                dec(mensa),
            ]
        }),
{
    reveal_strlit("");
    reveal_strlit("fromMensa");
    reveal_strlit("/fromMensa/");
    reveal_strlit("https://api.cyber-biene.de/mensaHub/meal/servingDate");
    reveal_strlit("https://api.cyber-biene.de/mensaHub/meal/servingDate/");
    lemma_decimal_round_trip(mensa);
    lemma_digits_free(dec(mensa));
    lemma_iso_date_free(date);
    let start = "https://api.cyber-biene.de/mensaHub/meal/servingDate"@;
    let all = seq![""@, iso_date(date), "fromMensa"@, dec(mensa)];
    assert("https://api.cyber-biene.de/mensaHub/meal/servingDate/"@ == start + seq!['/']);
    let path = mm_meals_address(mensa, date).skip(start.len() as int);
    assert(path == seq!['/'] + iso_date(date) + "/fromMensa/"@ + dec(mensa));
    reveal_with_fuel(joined, 5);
    let (three, two, one) = (
        all.drop_last(),
        all.drop_last().drop_last(),
        all.drop_last().drop_last().drop_last(),
    );
    assert(joined(one, '/') == all[0]);
    assert(joined(two, '/') == all[0] + seq!['/'] + all[1]);
    assert(joined(three, '/') == all[0] + seq!['/'] + all[1] + seq!['/'] + all[2]);
    assert(joined(all, '/') == path);
    assert forall|i: int| 0 <= i < all.len() implies free_of(#[trigger] all[i], '/') by {
        assert(i == 0 || i == 1 || i == 2 || i == 3);
    }
    law_parts_of_joined(all, '/');
}

/// A request asks the service of its backend for the plan of its canteen on the day that is shown.
pub proof fn law_plan_request(
    today: CalendarDate,
    backend: Backend,
    api_url: Seq<char>,
    mensa: nat,
    days_forward: i64,
    request: PlanRequest,
)
    requires
        today.valid(),
        is_plan_request(today, backend, api_url, mensa, days_forward, Some(request)),
    ensures
        request.days_forward == days_forward,
        request.day.date.weekday() < 5,
        request.day.date.number() == today.number() + days_forward + request.day.raised,
        forall|d: int|
            today.number() + days_forward <= d < request.day.date.number() ==> #[trigger] weekday_of(
                d,
            ) >= 5,
        backend == Backend::StuWe ==> request.url@ == meals_address(
            api_url,
            mensa,
            request.day.date,
        ),
        backend == Backend::MensiMates ==> request.url@ == mm_meals_address(
            mensa,
            request.day.date,
        ),
{
    law_requested_day(today, days_forward as int, Some(request.day));
}

/// Every canteen of the list is found under its number, by the name that the last entry with this
/// number gives it, and there are no others.
pub proof fn law_canteens(list: Seq<GetMensasMensa>, id: u32)
    ensures
        ({
            let all = mensen_map(list, list.len() as int);
            &&& all.dom().contains(id) <==> exists|i: int|
                0 <= i < list.len() && (#[trigger] list[i]).id == id
            &&& forall|i: int|
                0 <= i < list.len() && (#[trigger] list[i]).id == id && (forall|j: int|
                    i < j < list.len() ==> (#[trigger] list[j]).id != id) ==> all[id] == list[i].name
        }),
{
    lemma_canteens(list, list.len() as int, id);
}

proof fn lemma_canteens(list: Seq<GetMensasMensa>, n: int, id: u32)
    requires
        0 <= n <= list.len(),
    ensures
        mensen_map(list, n).dom().contains(id) <==> exists|i: int|
            0 <= i < n && (#[trigger] list[i]).id == id,
        forall|i: int|
            0 <= i < n && (#[trigger] list[i]).id == id && (forall|j: int|
                i < j < n ==> (#[trigger] list[j]).id != id) ==> mensen_map(list, n)[id]
                == list[i].name,
    decreases n,
{
    if n > 0 {
        lemma_canteens(list, n - 1, id);
        if list[n - 1].id != id {
            assert forall|i: int|
                0 <= i < n && (#[trigger] list[i]).id == id && (forall|j: int|
                    i < j < n ==> (#[trigger] list[j]).id != id) implies mensen_map(list, n)[id]
                == list[i].name by {
                assert(forall|j: int| i < j < n - 1 ==> (#[trigger] list[j]).id != id);
            }
        }
    }
}

} // verus!
