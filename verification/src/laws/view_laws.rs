//! What is said of values is said of all that they hold, and what schedules and errors look like.
use crate::button_bot::stuwe_parser::{is_meal_request, json_address, mensa_views};
use crate::calendar::{answers_request, utc_day, utc_time, CalendarDate, RequestedDay};
use crate::campusdual_fetcher::{
    attribute_views, cell_of, chars_if_any, content_views, count_of, first_if_any, grade_views,
    grades_are, icon_views, known_grades, known_signups, login_with, page_error_text, signup_views,
    signups_are, token_view, CampusDualRequest, GradeView, PageError,
    RequestView, SignupView, TableLine,
};
use crate::data_backend::mm_parser::mm_message;
use crate::data_backend::stuwe_parser::stuwe_message;
use crate::data_backend::EMOJI_COUNT;
use crate::data_types::mm_data_types::MensiMeal;
use crate::data_types::stuwe_data_types::MealGroup;
use crate::data_types::{CampusDualGrade, CampusDualSignupOption};
use crate::shared_main::{
    cron_days, cron_text, is_meal_message, meal_message, FetchedPlan, PlanRequest,
};
use crate::task_scheduler_funcs::{notice_views, CampusDualNotice};
use crate::text::{dec, texts};
use vstd::prelude::*;

verus! {

// ---------------------------------------------------------------------------------------------
// Views
// ---------------------------------------------------------------------------------------------

/// A result and an exam are what they hold.
pub proof fn law_entry_views(grade: CampusDualGrade, option: CampusDualSignupOption)
    ensures
        grade@.name == grade.name@,
        grade@.grade == grade.grade@,
        grade@.subgrades == grade.subgrades,
        option@.name == option.name@,
        option@.verfahren == option.verfahren@,
        option@.status == option.status@,
{
}

/// Lists of results and of exams are seen entry by entry, in their order.
pub proof fn law_list_views(
    grades: Seq<CampusDualGrade>,
    options: Seq<CampusDualSignupOption>,
    notices: Seq<CampusDualNotice>,
    strings: Seq<String>,
    mensen: Seq<(String, u8)>,
)
    ensures
        grade_views(grades).len() == grades.len(),
        forall|i: int| 0 <= i < grades.len() ==> #[trigger] grade_views(grades)[i] == grades[i]@,
        signup_views(options).len() == options.len(),
        forall|i: int| 0 <= i < options.len() ==> #[trigger] signup_views(options)[i] == options[i]@,
        notice_views(notices).len() == notices.len(),
        forall|i: int|
            0 <= i < notices.len() ==> (#[trigger] notice_views(notices)[i]).0 == notices[i].chat_id
                && notice_views(notices)[i].1 == notices[i].news && notice_views(notices)[i].2
                == notices[i].text@,
        texts(strings).len() == strings.len(),
        forall|i: int| 0 <= i < strings.len() ==> #[trigger] texts(strings)[i] == strings[i]@,
        mensa_views(mensen).len() == mensen.len(),
        forall|i: int|
            0 <= i < mensen.len() ==> (#[trigger] mensa_views(mensen)[i]).0 == mensen[i].0@
                && mensa_views(mensen)[i].1 == mensen[i].1,
{
}

/// What is stored is told from nothing, though it may be empty.
pub proof fn law_known_views(
    grades: Vec<CampusDualGrade>,
    options: Vec<CampusDualSignupOption>,
    outcome: Result<Seq<GradeView>, PageError>,
    exams: Result<Seq<SignupView>, PageError>,
    e: PageError,
)
    ensures
        known_grades(None) is None,
        known_grades(Some(grades)) == Some(grade_views(grades@)),
        known_signups(None) is None,
        known_signups(Some(options)) == Some(signup_views(options@)),
        grades_are(Ok(grades), outcome) <==> (outcome matches Ok(found) && found == grade_views(
            grades@,
        )),
        grades_are(Err(e), outcome) <==> (outcome matches Err(found) && found == e),
        signups_are(Ok(options), exams) <==> (exams matches Ok(found) && found == signup_views(
            options@,
        )),
        signups_are(Err(e), exams) <==> (exams matches Err(found) && found == e),
{
}

/// A line of a table is seen with its id, and with all pieces of text of all its cells.
pub proof fn law_line_view(line: TableLine, i: int)
    ensures
        line.id is None ==> line@.0 is None,
        line.id is Some ==> line@.0 == Some(line.id->0@),
        line@.1.len() == line.cells@.len(),
        forall|k: int| 0 <= k < line.cells@.len() ==> #[trigger] line@.1[k] == texts(line.cells@[k]@),
        cell_of(line@, i) is Some <==> 0 <= i < line.cells@.len() && line.cells@[i]@.len() > 0,
        0 <= i < line.cells@.len() && line.cells@[i]@.len() > 0 ==> cell_of(line@, i) == Some(
            line.cells@[i]@[0]@,
        ),
{
}

/// What was found is seen as it is, and what was not found as nothing. The first of some is the first,
/// and there is one unless there is none.
pub proof fn law_found_views(
    s: String,
    n: usize,
    values: Vec<Option<String>>,
    contents: Vec<String>,
    some: Seq<int>,
)
    ensures
        chars_if_any(Some(s)) == Some(s@),
        chars_if_any(None) is None,
        count_of(Some(n)) == Some(n as nat),
        count_of(None) is None,
        token_view(None) is None,
        token_view(Some(None)) == Some(None::<Seq<char>>),
        token_view(Some(Some(s))) == Some(Some(s@)),
        attribute_views(None) is None,
        attribute_views(Some(values)) matches Some(found) && found.len() == values@.len() && forall|
            i: int,
        |
            0 <= i < found.len() ==> #[trigger] found[i] == chars_if_any(values@[i]),
        content_views(None) is None,
        content_views(Some(contents)) == Some(texts(contents@)),
        icon_views(None) is None,
        first_if_any(None::<Seq<int>>) is None,
        some.len() == 0 ==> first_if_any(Some(some)) is None,
        some.len() > 0 ==> first_if_any(Some(some)) == Some(some[0]),
{
}

/// A request is seen with its address, its fields in their order, and the name of the browser.
pub proof fn law_request_view(request: CampusDualRequest)
    ensures
        request matches CampusDualRequest::Get { url } ==> request@ == (RequestView::Get {
            url: url@,
        }),
        request matches CampusDualRequest::Login { url, fields, user_agent } ==> (
        request@ matches RequestView::Login { url: address, fields: sent, user_agent: browser }
            && address == url@ && browser == user_agent@ && sent.len() == fields@.len() && forall|
            i: int,
        |
            0 <= i < sent.len() ==> (#[trigger] sent[i]).0 == fields@[i].0@ && sent[i].1
                == fields@[i].1@),
{
}

/// Two logins differ in nothing but the name, the password and the token.
pub proof fn law_logins(
    name: Seq<char>,
    password: Seq<char>,
    token: Seq<char>,
    other_name: Seq<char>,
    other_password: Seq<char>,
    other_token: Seq<char>,
)
    ensures
        login_with(name, password, token) == login_with(other_name, other_password, other_token)
            ==> name == other_name && password == other_password && token == other_token,
        login_with(name, password, token)->Login_url == login_with(
            other_name,
            other_password,
            other_token,
        )->Login_url,
        login_with(name, password, token)->user_agent
            == "Mozilla/5.0 (Macintosh; Intel Mac OS X 10_15_7) AppleWebKit/537.36 (KHTML, like Gecko) Chrome/117.0.0.0 Safari/537.36"@,
{
    let a = login_with(name, password, token)->fields;
    let b = login_with(other_name, other_password, other_token)->fields;
    assert(a[0].1 == name && a[1].1 == password && a[2].1 == token);
    assert(b[0].1 == other_name && b[1].1 == other_password && b[2].1 == other_token);
}

/// Each error of a page has its own words.
pub proof fn law_page_errors(a: PageError, b: PageError)
    ensures
        page_error_text(PageError::TableMissing) == "CD grades page: #acwork tbody missing"@,
        page_error_text(PageError::LineWithoutId) == "CD: grades table line has no ID"@,
        page_error_text(PageError::TokenMissing) == "CD login stage 1: XSRF token missing"@,
        page_error_text(PageError::Malformed) == "CD: malformed page"@,
        page_error_text(a) == page_error_text(b) ==> a == b,
{
    reveal_strlit("CD grades page: #acwork tbody missing");
    reveal_strlit("CD: grades table line has no ID");
    reveal_strlit("CD login stage 1: XSRF token missing");
    reveal_strlit("CD: malformed page");
    assert(page_error_text(PageError::TableMissing).len() == 37);
    assert(page_error_text(PageError::LineWithoutId).len() == 31);
    assert(page_error_text(PageError::TokenMissing).len() == 36);
    assert(page_error_text(PageError::Malformed).len() == 18);
}

// ---------------------------------------------------------------------------------------------
// Schedules
// ---------------------------------------------------------------------------------------------

/// In UTC it is the local second of the day less the offset, on the day before, the same day or the day
/// after. The second within the minute falls away.
pub proof fn law_utc(hour: int, minute: int, offset: int)
    requires
        0 <= hour < 24,
        0 <= minute < 60,
        -86400 < offset < 86400,
    ensures
        ({
            let utc = utc_time(hour, minute, offset);
            let day = utc_day(hour, minute, offset);
            let wanted = hour * 3600 + minute * 60 - offset;
            &&& 0 <= utc.0 < 24
            &&& 0 <= utc.1 < 60
            &&& -1 <= day <= 1
            &&& day * 86400 + utc.0 * 3600 + utc.1 * 60 <= wanted
            &&& wanted < day * 86400 + utc.0 * 3600 + utc.1 * 60 + 60
        }),
{
}

/// The weekdays of a schedule are the five from Monday to Friday, moved by as many days as UTC is away.
pub proof fn law_cron_days(hour: nat, minute: nat)
    ensures
        cron_days(-1) == "Sun,Mon,Tue,Wed,Thu"@,
        cron_days(0) == "Mon,Tue,Wed,Thu,Fri"@,
        cron_days(1) == "Tue,Wed,Thu,Fri,Sat"@,
        cron_text(0, hour, minute) == "0 "@ + dec(minute) + " "@ + dec(hour)
            + " * * Mon,Tue,Wed,Thu,Fri"@,
{
    reveal_strlit(" * * ");
    reveal_strlit("Mon,Tue,Wed,Thu,Fri");
    reveal_strlit(" * * Mon,Tue,Wed,Thu,Fri");
    assert(" * * "@ + "Mon,Tue,Wed,Thu,Fri"@ == " * * Mon,Tue,Wed,Thu,Fri"@);
    assert("0 "@ + dec(minute) + " "@ + dec(hour) + " * * "@ + "Mon,Tue,Wed,Thu,Fri"@ == "0 "@ + dec(
        minute,
    ) + " "@ + dec(hour) + (" * * "@ + "Mon,Tue,Wed,Thu,Fri"@));
}

/// What the button bot asks for is the plan of the day that is to be shown, at the canteen's address.
pub proof fn law_meal_request(
    today: CalendarDate,
    mensa_location: u8,
    days_forward: i64,
    request: PlanRequest,
)
    requires
        is_meal_request(today, mensa_location, days_forward, Some(request)),
    ensures
        answers_request(today, days_forward as int, Some(request.day)),
        request.days_forward == days_forward,
        request.url@ == json_address(request.day.date, mensa_location),
{
}

// ---------------------------------------------------------------------------------------------
// Messages
// ---------------------------------------------------------------------------------------------

/// The message that shows a plan is that of the service that the plan comes from, for the day, the
/// number of days ahead and the wish for allergens that it was asked with. Studentenwerk's looks the
/// same with that wish and without it.
pub proof fn law_plan_message(
    message: Seq<char>,
    meals: Result<Vec<MensiMeal>, String>,
    groups: Vec<MealGroup>,
    day: RequestedDay,
    days_forward: int,
    wants_allergens: bool,
    e: int,
)
    ensures
        is_meal_message(
            message,
            FetchedPlan::MensiMates(meals),
            day,
            days_forward,
            wants_allergens,
        ) ==> exists|e: int|
            0 <= e < 7 && message == #[trigger] mm_message(
                meals,
                day,
                days_forward,
                wants_allergens,
                e,
            ),
        is_meal_message(
            message,
            FetchedPlan::StuWe(Some(groups)),
            day,
            days_forward,
            wants_allergens,
        ) ==> exists|e: int|
            0 <= e < 7 && message == #[trigger] stuwe_message(groups@, day, days_forward, e),
        is_meal_message(message, FetchedPlan::StuWe(None), day, days_forward, wants_allergens)
            ==> message == "Ein Fehler ist aufgetreten\\."@,
        meal_message(FetchedPlan::StuWe(Some(groups)), day, days_forward, true, e) == meal_message(
            FetchedPlan::StuWe(Some(groups)),
            day,
            days_forward,
            false,
            e,
        ),
{
    let plan = FetchedPlan::MensiMates(meals);
    if is_meal_message(message, plan, day, days_forward, wants_allergens) {
        let e = choose|e: int|
            0 <= e < EMOJI_COUNT && message == #[trigger] meal_message(
                plan,
                day,
                days_forward,
                wants_allergens,
                e,
            );
        assert(message == mm_message(meals, day, days_forward, wants_allergens, e));
    }
    let plan = FetchedPlan::StuWe(Some(groups));
    if is_meal_message(message, plan, day, days_forward, wants_allergens) {
        let e = choose|e: int|
            0 <= e < EMOJI_COUNT && message == #[trigger] meal_message(
                plan,
                day,
                days_forward,
                wants_allergens,
                e,
            );
        assert(message == stuwe_message(groups@, day, days_forward, e));
    }
}

} // verus!
