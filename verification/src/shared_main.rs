//! What all parts of the bot share: the keyboards, the daily job, and the answers to pressed buttons.
use crate::actions::{changes_nothing, plain, send_plain, views, Action, ActionView, Markup};
use crate::calendar::{
    answers_request, local_now, requested_day_if_any, utc_day, utc_day_of, utc_of,
    utc_offset_today, utc_time, weekday_of, CalendarDate, LocalOffset, RequestedDay,
};
use crate::constants::NO_DB_MSG;
use crate::data_backend::mm_parser::{
    mm_body_text, mm_build_meal_msg, mm_meals_address, mm_meals_url, mm_message,
};
use crate::data_backend::stuwe_parser::{
    meals_address, meals_url, plan_text, stuwe_build_meal_msg, stuwe_message,
};
use crate::data_backend::{emoji_text, head_text, EMOJI_COUNT};
use crate::data_types::mm_data_types::MensiMeal;
use crate::data_types::stuwe_data_types::MealGroup;
use crate::data_types::{
    Backend, JobHandlerTask, MensaKeyboardAction, QueryRegistrationTask, RegisterTask,
    RegistrationEntry, UpdateRegistrationTask,
};
use crate::markdown::{bold, bold_text, law_sendable_is_escaped, well_escaped};
use crate::ordered::{ascending_u32, keys_u32};
use crate::text::{
    all_digits, contains_text, cut, dec, decimal, is_signed_within, lemma_digits_value_bounds,
    lemma_first_of, owned, parse_small, same_text, signed_digits, signed_value, split_once,
    stands_at, texts,
};
use std::collections::BTreeMap;
use vstd::prelude::*;
use vstd::string::StringExecFns;

verus! {

// ---------------------------------------------------------------------------------------------
// Registrations
// ---------------------------------------------------------------------------------------------

/// The order that asks what is registered for a chat.
pub open spec fn query_for(chat_id: i64) -> JobHandlerTask {
    (QueryRegistrationTask { chat_id }).order()
}

/// The order that asks what is registered for a chat.
pub fn make_query_data(chat_id: i64) -> (r: JobHandlerTask)
    ensures
        r == query_for(chat_id),
{
    JobHandlerTask::from(QueryRegistrationTask { chat_id })
}

/// What is registered for a chat.
pub open spec fn registration_of(
    registrations: Map<i64, RegistrationEntry>,
    chat_id: i64,
) -> Option<RegistrationEntry> {
    if registrations.dom().contains(chat_id) {
        Some(registrations[chat_id])
    } else {
        None
    }
}

/// What is registered for a chat.
pub fn get_user_registration(
    registrations: &BTreeMap<i64, RegistrationEntry>,
    chat_id: i64,
) -> (r: Option<RegistrationEntry>)
    ensures
        r == registration_of(registrations@, chat_id),
{
    match registrations.get(&chat_id) {
        Some(entry) => Some(*entry),
        None => None,
    }
}

/// Registers something for a chat, in place of what was registered for it.
pub fn insert_user_registration(
    registrations: &mut BTreeMap<i64, RegistrationEntry>,
    chat_id: i64,
    registration: RegistrationEntry,
)
    ensures
        final(registrations)@ == old(registrations)@.insert(chat_id, registration),
{
    registrations.insert(chat_id, registration);
}

// ---------------------------------------------------------------------------------------------
// The daily job
// ---------------------------------------------------------------------------------------------

/// A job that sends the plan of a canteen to a chat, from Monday to Friday at a local time.
#[derive(Debug, Copy, Clone, PartialEq, Eq, Structural)]
pub struct DailyJob {
    pub chat_id: i64,
    pub mensa_id: u32,
    pub hour: u32,
    pub minute: u32,
}

/// Whether an order with a time says all that its job needs. One without a time gets no job.
pub open spec fn job_complete(
    chat: Option<i64>,
    mensa: Option<u32>,
    hour: Option<u32>,
    minute: Option<u32>,
) -> bool {
    hour is Some ==> chat is Some && mensa is Some && minute is Some && hour->0 < 24 && minute->0
        < 60
}

/// The job of an order, if it has a time.
pub open spec fn job_of(
    chat: Option<i64>,
    mensa: Option<u32>,
    hour: Option<u32>,
    minute: Option<u32>,
) -> Option<DailyJob> {
    match hour {
        Some(hour) => Some(
            DailyJob { chat_id: chat->0, mensa_id: mensa->0, hour, minute: minute->0 },
        ),
        None => None,
    }
}

/// The short name of a weekday: 0 is Monday, 6 is Sunday.
pub open spec fn short_name(weekday: int) -> Seq<char> {
    if weekday == 0 {
        "Mon"@
    } else if weekday == 1 {
        "Tue"@
    } else if weekday == 2 {
        "Wed"@
    } else if weekday == 3 {
        "Thu"@
    } else if weekday == 4 {
        "Fri"@
    } else if weekday == 5 {
        "Sat"@
    } else {
        "Sun"@
    }
}

/// The days of UTC on which a job runs, if it is the day before there (below 0), the same day (0), or
/// the day after (above 0) when it runs.
pub open spec fn cron_days(day: int) -> Seq<char> {
    if day < 0 {
        "Sun,Mon,Tue,Wed,Thu"@
    } else if day > 0 {
        "Tue,Wed,Thu,Fri,Sat"@
    } else {
        "Mon,Tue,Wed,Thu,Fri"@
    }
}

/// When a job runs, as the scheduler wants to be told: at a time of day in UTC, on the days of UTC
/// that are working days where it runs.
pub open spec fn cron_text(day: int, hour: nat, minute: nat) -> Seq<char> {
    "0 "@ + dec(minute) + " "@ + dec(hour) + " * * "@ + cron_days(day)
}

/// When a job runs, as the scheduler wants to be told.
pub fn cron_expression(day: i32, hour: u32, minute: u32) -> (r: String)
    ensures
        r@ == cron_text(day as int, hour as nat, minute as nat),
{
    let mut r = owned("0 ");
    r.append(decimal(minute as u64).as_str());
    r.append(" ");
    r.append(decimal(hour as u64).as_str());
    r.append(" * * ");
    if day < 0 {
        r.append("Sun,Mon,Tue,Wed,Thu");
    } else if day > 0 {
        r.append("Tue,Wed,Thu,Fri,Sat");
    } else {
        r.append("Mon,Tue,Wed,Thu,Fri");
    }
    r
}

/// When a job for a local time of day runs, if local time is `offset` seconds ahead of UTC.
pub open spec fn schedule_text(hour: int, minute: int, offset: int) -> Seq<char> {
    let utc = utc_time(hour, minute, offset);
    cron_text(utc_day(hour, minute, offset), utc.0 as nat, utc.1 as nat)
}

/// When a job for a local time of day runs, if local time is `offset` seconds ahead of UTC.
pub fn job_schedule(hour: u32, minute: u32, offset: i32) -> (r: String)
    requires
        hour < 24,
        minute < 60,
        -86400 < offset < 86400,
    ensures
        r@ == schedule_text(hour as int, minute as int, offset as int),
{
    let day: i32 = utc_day_of(hour, minute, offset);
    let (utc_hour, utc_minute) = utc_of(hour, minute, offset);
    cron_expression(day, utc_hour, utc_minute)
}

/// Whether a list of days names a weekday.
pub open spec fn names_weekday(list: Seq<char>, weekday: int) -> bool {
    contains_text(list, short_name(weekday))
}

/// In a list of five short names, a short name stands where one of the five is.
proof fn lemma_five_names(list: Seq<char>, first: int, weekday: int)
    requires
        first == 0 || first == 1 || first == 6,
        list == cron_days(if first == 6 {
            -1
        } else {
            first
        }),
        0 <= weekday < 7,
    ensures
        names_weekday(list, weekday) <==> (weekday - first) % 7 < 5,
{
    reveal_strlit("Mon");
    reveal_strlit("Tue");
    reveal_strlit("Wed");
    reveal_strlit("Thu");
    reveal_strlit("Fri");
    reveal_strlit("Sat");
    reveal_strlit("Sun");
    reveal_strlit("Sun,Mon,Tue,Wed,Thu");
    reveal_strlit("Tue,Wed,Thu,Fri,Sat");
    reveal_strlit("Mon,Tue,Wed,Thu,Fri");
    let name = short_name(weekday);
    let k = (weekday - first) % 7;
    if k < 5 {
        let i = 4 * k;
        assert(k == 0 || k == 1 || k == 2 || k == 3 || k == 4);
        assert(list.subrange(i, i + 3) == name);
        assert(stands_at(list, i, name));
    } else {
        assert forall|i: int| !#[trigger] stands_at(list, i, name) by {
            if stands_at(list, i, name) {
                assert(0 <= i <= 16);
                let piece = list.subrange(i, i + 3);
                assert(piece[0] == list[i] && piece[1] == list[i + 1]);
                assert(i == 0 || i == 1 || i == 2 || i == 3 || i == 4 || i == 5 || i == 6 || i == 7
                    || i == 8 || i == 9 || i == 10 || i == 11 || i == 12 || i == 13 || i == 14 || i
                    == 15 || i == 16);
                assert(false);
            }
        }
    }
}

/// A job runs from Monday to Friday local time and on no other day, wherever local time is. `day` is
/// any local day, and so any day of UTC is looked at: on it the schedule is due in the minute in which
/// the local time comes, and the list of days has it run there if and only if `day` is no weekend.
pub proof fn law_job_runs_on_working_days(hour: int, minute: int, offset: int, day: int)
    requires
        0 <= hour < 24,
        0 <= minute < 60,
        -86400 < offset < 86400,
    ensures
        ({
            let shift = utc_day(hour, minute, offset);
            let utc = utc_time(hour, minute, offset);
            let wanted = day * 86400 + hour * 3600 + minute * 60;
            let due = (day + shift) * 86400 + utc.0 * 3600 + utc.1 * 60 + offset;
            &&& due <= wanted < due + 60
            &&& offset % 60 == 0 ==> due == wanted
            &&& names_weekday(cron_days(shift), weekday_of(day + shift)) <==> weekday_of(day) < 5
        }),
{
    let shift = utc_day(hour, minute, offset);
    let second = hour * 3600 + minute * 60 - offset;
    assert(second == 86400 * shift + second % 86400);
    assert(-1 <= shift <= 1);
    let first = if shift < 0 {
        6
    } else {
        shift
    };
    lemma_five_names(cron_days(shift), first, weekday_of(day + shift));
}

/// What comes of the wish to load a job.
#[derive(Debug, PartialEq)]
pub enum LoadJob {
    /// There is no time at which it would run.
    NoTime,
    /// Its local time does not exist today, or exists twice.
    NoSuchTime,
    /// The job, by how much local time is ahead of UTC when it runs today, and when it runs.
    Load { job: DailyJob, offset: LocalOffset, schedule: String },
}

/// Whether an offset is one that the machine gave for the time of a job.
pub open spec fn is_offset_of(offset: LocalOffset, job: DailyJob) -> bool {
    offset.is_for(job.hour, job.minute) && -86400 < offset.ahead() < 86400
}

/// Whether `load` runs a job at its local time from Monday to Friday, if local time is so much ahead
/// of UTC.
pub open spec fn loads_at(load: LoadJob, job: DailyJob, offset: LocalOffset) -> bool {
    &&& load matches LoadJob::Load { job: loaded, offset: ahead, schedule }
    &&& loaded == job
    &&& ahead == offset
    &&& schedule@ == schedule_text(job.hour as int, job.minute as int, offset.ahead())
}

/// Loads a job, if it is known by how much local time is ahead of UTC when it runs today.
pub fn load_job_at(job: DailyJob, offset: Option<LocalOffset>) -> (r: LoadJob)
    requires
        offset matches Some(offset) ==> job.hour < 24 && job.minute < 60 && is_offset_of(
            offset,
            job,
        ),
    ensures
        match offset {
            Some(offset) => loads_at(r, job, offset),
            None => r is NoSuchTime,
        },
{
    match offset {
        Some(offset) => {
            let schedule = job_schedule(job.hour, job.minute, offset.seconds());
            LoadJob::Load { job, offset, schedule }
        },
        None => LoadJob::NoSuchTime,
    }
}

/// Whether `load` is what may come of the wish to load a job. Whether its time exists today, and by
/// how much local time is ahead of UTC then, depends on the day and on the time zone; when the job
/// runs follows from that.
pub open spec fn loads_or_not(load: LoadJob, job: DailyJob) -> bool {
    match load {
        LoadJob::NoTime => false,
        LoadJob::NoSuchTime => true,
        LoadJob::Load { offset, .. } => is_offset_of(offset, job) && loads_at(load, job, offset),
    }
}

/// Loads a job. Its local time is converted to UTC as of today.
pub fn load_daily_job(job: DailyJob) -> (r: LoadJob)
    ensures
        loads_or_not(r, job),
        job.hour >= 24 || job.minute >= 60 ==> r is NoSuchTime,
{
    load_job_at(job, utc_offset_today(job.hour, job.minute))
}

/// Loads the job of an order, if it has a time.
pub fn load_job(task: &JobHandlerTask) -> (r: LoadJob)
    requires
        job_complete(task.chat_id, task.mensa_id, task.hour, task.minute),
    ensures
        match job_of(task.chat_id, task.mensa_id, task.hour, task.minute) {
            None => r is NoTime,
            Some(job) => loads_or_not(r, job),
        },
{
    match task.hour {
        None => LoadJob::NoTime,
        Some(hour) => load_daily_job(
            DailyJob {
                chat_id: task.chat_id.unwrap(),
                mensa_id: task.mensa_id.unwrap(),
                hour,
                minute: task.minute.unwrap(),
            },
        ),
    }
}

// ---------------------------------------------------------------------------------------------
// Keyboards
// ---------------------------------------------------------------------------------------------

/// A button below a message, and what the bot is told when it is pressed.
#[derive(Debug, Clone, PartialEq)]
pub struct InlineButton {
    pub text: String,
    pub data: String,
}

/// What stands before the colon in the data of a canteen's button.
pub open spec fn mensa_command(action: MensaKeyboardAction) -> Seq<char> {
    match action {
        MensaKeyboardAction::Register => "m_regist"@,
        MensaKeyboardAction::Update => "m_upd"@,
        MensaKeyboardAction::DisplayOnce => "m_disp"@,
    }
}

/// The data of a canteen's button.
pub open spec fn mensa_data(action: MensaKeyboardAction, name: Seq<char>) -> Seq<char> {
    mensa_command(action) + ":"@ + name
}

/// Whether `buttons` are the buttons of the canteens with the numbers `ids`.
pub open spec fn are_mensa_buttons(
    buttons: Seq<InlineButton>,
    ids: Seq<u32>,
    mensen: Map<u32, String>,
    action: MensaKeyboardAction,
) -> bool {
    &&& buttons.len() == ids.len()
    &&& forall|i: int|
        0 <= i < ids.len() ==> (#[trigger] buttons[i]).text@ == mensen[ids[i]]@ && buttons[i].data@
            == mensa_data(action, mensen[ids[i]]@)
}

/// A keyboard with one button for every canteen, by their numbers. Each stands in a row of its own.
pub fn make_mensa_keyboard(
    mensen: &BTreeMap<u32, String>,
    action: MensaKeyboardAction,
) -> (r: Vec<InlineButton>)
    ensures
        exists|ids: Seq<u32>|
            ascending_u32(ids, mensen@.dom()) && #[trigger] are_mensa_buttons(
                r@,
                ids,
                mensen@,
                action,
            ),
{
    let ids = keys_u32(mensen);
    let mut keyboard: Vec<InlineButton> = Vec::new();
    for i in 0..ids.len()
        invariant
            ascending_u32(ids@, mensen@.dom()),
            are_mensa_buttons(keyboard@, ids@.take(i as int), mensen@, action),
    {
        let id: u32 = ids[i];
        assert(ids@.contains(id));
        match mensen.get(&id) {
            Some(name) => {
                let mut data = match action {
                    MensaKeyboardAction::Register => owned("m_regist"),
                    MensaKeyboardAction::Update => owned("m_upd"),
                    MensaKeyboardAction::DisplayOnce => owned("m_disp"),
                };
                data.append(":");
                data.append(name.as_str());
                keyboard.push(InlineButton { text: owned(name.as_str()), data });
            },
            None => {},
        }
    }
    assert(ids@.take(ids@.len() as int) == ids@);
    assert(are_mensa_buttons(keyboard@, ids@, mensen@, action));
    keyboard
}

/// The commands below the input field, by rows.
pub fn make_commands_keyrow() -> (r: Vec<Vec<String>>)
    ensures
        r@.len() == 2,
        texts(r@[0]@) == seq!["/heute"@, "/morgen"@, "/uebermorgen"@],
        texts(r@[1]@) == seq!["/andere"@, "/mensa"@],
{
    vec![
        vec![owned("/heute"), owned("/morgen"), owned("/uebermorgen")],
        vec![owned("/andere"), owned("/mensa")],
    ]
}

// ---------------------------------------------------------------------------------------------
// Plans
// ---------------------------------------------------------------------------------------------

/// What a service answered to the request for a plan.
#[derive(Debug, PartialEq)]
pub enum FetchedPlan {
    /// The meals, or the error that came instead.
    MensiMates(Result<Vec<MensiMeal>, String>),
    /// The groups of meals, or nothing if the request failed.
    StuWe(Option<Vec<MealGroup>>),
}

/// Where the plan of a canteen for a day is asked for.
pub open spec fn plan_address(
    backend: Backend,
    api_url: Seq<char>,
    mensa_location: nat,
    date: CalendarDate,
) -> Seq<char> {
    match backend {
        Backend::MensiMates => mm_meals_address(mensa_location, date),
        Backend::StuWe => meals_address(api_url, mensa_location, date),
    }
}

/// Where the plan of a canteen for a day is asked for.
pub fn plan_url(backend: Backend, api_url: &str, mensa_location: u32, date: CalendarDate) -> (r:
    String)
    ensures
        r@ == plan_address(backend, api_url@, mensa_location as nat, date),
{
    match backend {
        Backend::MensiMates => mm_meals_url(mensa_location, date),
        Backend::StuWe => meals_url(api_url, mensa_location, date),
    }
}

/// The request for a plan: for which day, by how many days ahead it was asked for, and where it is
/// put.
#[derive(Debug, Clone, PartialEq)]
pub struct PlanRequest {
    pub day: RequestedDay,
    pub days_forward: i64,
    pub url: String,
}

/// Whether `r` is the request for the plan of a canteen that is made on `today`: for the requested
/// day, at the address of that day's plan. `None` where the day lies outside of the calendar.
pub open spec fn is_plan_request(
    today: CalendarDate,
    backend: Backend,
    api_url: Seq<char>,
    mensa_location: nat,
    days_forward: i64,
    r: Option<PlanRequest>,
) -> bool {
    match r {
        Some(request) => {
            &&& answers_request(today, days_forward as int, Some(request.day))
            &&& request.days_forward == days_forward
            &&& request.url@ == plan_address(backend, api_url, mensa_location, request.day.date)
        },
        None => answers_request(today, days_forward as int, None),
    }
}

/// The request for the plan of a canteen, `days_forward` days after `today`.
pub fn request_plan(
    today: CalendarDate,
    backend: Backend,
    api_url: &str,
    mensa_location: u32,
    days_forward: i64,
) -> (r: Option<PlanRequest>)
    requires
        today.valid(),
    ensures
        is_plan_request(today, backend, api_url@, mensa_location as nat, days_forward, r),
        r matches Some(request) ==> request.day.date.valid() && request.day.date.weekday() < 5,
{
    match requested_day_if_any(today, days_forward) {
        Some(day) => Some(
            PlanRequest {
                day,
                days_forward,
                url: plan_url(backend, api_url, mensa_location, day.date),
            },
        ),
        None => None,
    }
}

/// The request for the plan of a canteen, `days_forward` days from today.
pub fn request_plan_from_now(
    backend: Backend,
    api_url: &str,
    mensa_location: u32,
    days_forward: i64,
) -> (r: Option<PlanRequest>)
    ensures
        exists|today: CalendarDate|
            today.valid() && #[trigger] is_plan_request(
                today,
                backend,
                api_url@,
                mensa_location as nat,
                days_forward,
                r,
            ),
        r matches Some(request) ==> request.day.date.valid() && request.day.date.weekday() < 5,
{
    let today = local_now().date;
    let r = request_plan(today, backend, api_url, mensa_location, days_forward);
    assert(is_plan_request(today, backend, api_url@, mensa_location as nat, days_forward, r));
    r
}

/// Whether every group of a plan holds a meal.
pub open spec fn no_empty_group(plan: FetchedPlan) -> bool {
    plan matches FetchedPlan::StuWe(Some(groups)) ==> forall|i: int|
        0 <= i < groups@.len() ==> (#[trigger] groups@[i]).sub_meals@.len() > 0
}

/// The message that answers the request for a plan, headed by the emoji with this number.
pub open spec fn meal_message(
    plan: FetchedPlan,
    day: RequestedDay,
    days_forward: int,
    wants_allergens: bool,
    emoji_index: int,
) -> Seq<char> {
    match plan {
        FetchedPlan::MensiMates(meals) => mm_message(
            meals,
            day,
            days_forward,
            wants_allergens,
            emoji_index,
        ),
        FetchedPlan::StuWe(Some(groups)) => stuwe_message(groups@, day, days_forward, emoji_index),
        FetchedPlan::StuWe(None) => "Ein Fehler ist aufgetreten\\."@,
    }
}

/// Whether `message` answers the request for a plan, with one of the emojis at its head.
pub open spec fn is_meal_message(
    message: Seq<char>,
    plan: FetchedPlan,
    day: RequestedDay,
    days_forward: int,
    wants_allergens: bool,
) -> bool {
    exists|e: int|
        0 <= e < EMOJI_COUNT && message == #[trigger] meal_message(
            plan,
            day,
            days_forward,
            wants_allergens,
            e,
        )
}

/// The message that answers the request for a plan, from what came back.
pub fn build_meal_message_dispatcher(
    plan: FetchedPlan,
    request: &PlanRequest,
    wants_allergens: bool,
) -> (r: String)
    requires
        no_empty_group(plan),
        request.day.date.valid(),
        request.day.date.weekday() < 5,
    ensures
        is_meal_message(
            r@,
            plan,
            request.day,
            request.days_forward as int,
            wants_allergens,
        ),
{
    let day = request.day;
    let days_forward: i64 = request.days_forward;
    let ghost asked = plan;
    match plan {
        FetchedPlan::MensiMates(meals) => {
            let r = mm_build_meal_msg(&meals, day, days_forward, wants_allergens);
            proof {
                let e = choose|e: int|
                    0 <= e < EMOJI_COUNT && r@ == #[trigger] mm_message(
                        meals,
                        day,
                        days_forward as int,
                        wants_allergens,
                        e,
                    );
                assert(r@ == meal_message(asked, day, days_forward as int, wants_allergens, e));
            }
            r
        },
        FetchedPlan::StuWe(groups) => {
            let ghost asked_groups = groups;
            let r = stuwe_build_meal_msg(groups, day, days_forward);
            proof {
                let e = match asked_groups {
                    Some(groups) => choose|e: int|
                        0 <= e < EMOJI_COUNT && r@ == #[trigger] stuwe_message(
                            groups@,
                            day,
                            days_forward as int,
                            e,
                        ),
                    None => 0,
                };
                assert(r@ == meal_message(asked, day, days_forward as int, wants_allergens, e));
            }
            r
        },
    }
}

/// In a message that answers the request for a plan, every special character stands behind a
/// backslash.
pub proof fn law_meal_message_is_escaped(
    message: Seq<char>,
    plan: FetchedPlan,
    day: RequestedDay,
    days_forward: int,
    wants_allergens: bool,
)
    requires
        is_meal_message(message, plan, day, days_forward, wants_allergens),
    ensures
        well_escaped(message),
{
    let e = choose|e: int|
        0 <= e < EMOJI_COUNT && message == #[trigger] meal_message(
            plan,
            day,
            days_forward,
            wants_allergens,
            e,
        );
    match plan {
        FetchedPlan::MensiMates(meals) => {
            law_sendable_is_escaped(
                head_text(emoji_text(e), day, days_forward) + mm_body_text(meals, wants_allergens),
            );
        },
        FetchedPlan::StuWe(Some(groups)) => {
            law_sendable_is_escaped(
                head_text(emoji_text(e), day, days_forward) + plan_text(groups@),
            );
        },
        FetchedPlan::StuWe(None) => {
            reveal_strlit("Ein Fehler ist aufgetreten\\.");
        },
    }
}

// ---------------------------------------------------------------------------------------------
// Pressed buttons
// ---------------------------------------------------------------------------------------------

/// Whether `id` is the canteen with this name. If there is more than one, it is the one with the
/// smallest number.
pub open spec fn is_mensa_named(mensen: Map<u32, String>, name: Seq<char>, id: u32) -> bool {
    &&& mensen.dom().contains(id)
    &&& mensen[id]@ == name
    &&& forall|other: u32| #[trigger]
        mensen.dom().contains(other) && mensen[other]@ == name ==> id <= other
}

/// The canteen with this name, if there is one.
pub open spec fn mensa_named(mensen: Map<u32, String>, name: Seq<char>) -> Option<u32> {
    if exists|id: u32| is_mensa_named(mensen, name, id) {
        Some(choose|id: u32| is_mensa_named(mensen, name, id))
    } else {
        None
    }
}

/// The canteen with this name, if there is one.
pub fn find_mensa(mensen: &BTreeMap<u32, String>, name: &str) -> (r: Option<u32>)
    ensures
        r == mensa_named(mensen@, name@),
{
    let ids = keys_u32(mensen);
    for i in 0..ids.len()
        invariant
            ascending_u32(ids@, mensen@.dom()),
            forall|j: int| 0 <= j < i ==> mensen@[#[trigger] ids@[j]]@ != name@,
    {
        let id: u32 = ids[i];
        assert(ids@.contains(id));
        match mensen.get(&id) {
            Some(found) => {
                if same_text(found.as_str(), name) {
                    proof {
                        assert forall|other: u32| #[trigger]
                            mensen@.dom().contains(other) && mensen@[other]@ == name@ implies id
                            <= other by {
                            assert(ids@.contains(other));
                            let j = choose|j: int| 0 <= j < ids@.len() && ids@[j] == other;
                            if j < i {
                                assert(mensen@[ids@[j]]@ != name@);
                            }
                        }
                        assert(is_mensa_named(mensen@, name@, id));
                        let chosen = choose|id: u32| is_mensa_named(mensen@, name@, id);
                        assert(chosen == id);
                    }
                    return Some(id);
                }
            },
            None => {},
        }
    }
    proof {
        if exists|id: u32| is_mensa_named(mensen@, name@, id) {
            let id = choose|id: u32| is_mensa_named(mensen@, name@, id);
            assert(ids@.contains(id));
            let j = choose|j: int| 0 <= j < ids@.len() && ids@[j] == id;
            assert(mensen@[ids@[j]]@ != name@);
        }
    }
    None
}

/// The order to use another canteen for a chat.
pub open spec fn other_mensa(chat_id: i64, mensa_id: u32) -> JobHandlerTask {
    (UpdateRegistrationTask { chat_id, mensa_id: Some(mensa_id), hour: None, minute: None }).order()
}

/// The order to enter a chat. Its daily message comes at six o'clock.
pub open spec fn first_registration(chat_id: i64, mensa_id: u32) -> JobHandlerTask {
    (RegisterTask { chat_id, mensa_id, hour: 6, minute: 0 }).order()
}

/// The welcome to a chat that picked a canteen.
pub open spec fn welcome_text(mensa: Seq<char>) -> Seq<char> {
    "Plan der "@ + bold_text(mensa)
        + " wird ab jetzt automatisch an Wochentagen *06:00 Uhr* gesendet\\.\n\nÄndern mit\n/mensa oder /uhrzeit"@
}

/// Whether a text is the number of one of the days that can be asked for: today, tomorrow, or the day
/// after.
pub open spec fn is_day(arg: Seq<char>) -> bool {
    is_signed_within(arg, 2) && signed_value(arg) >= 0
}

/// Reads the number of one of the days that can be asked for.
pub fn parse_day(arg: &str) -> (r: Option<i64>)
    ensures
        r == if is_day(arg@) {
            Some(signed_value(arg@) as i64)
        } else {
            None
        },
{
    proof {
        if all_digits(signed_digits(arg@)) {
            lemma_digits_value_bounds(signed_digits(arg@));
        }
    }
    match parse_small(arg, 2) {
        Some(days_forward) => if days_forward >= 0 {
            Some(days_forward)
        } else {
            None
        },
        None => None,
    }
}

/// What a pressed button leads to, by its data. `None` if the bot does not know such a button.
pub open spec fn callback_actions(
    data: Seq<char>,
    chat_id: i64,
    registration: Option<RegistrationEntry>,
    mensen: Map<u32, String>,
    descriptions: Seq<char>,
) -> Option<Seq<ActionView>> {
    match cut(data, ':') {
        None => None,
        Some((cmd, arg)) => if cmd == "m_upd"@ {
            match mensa_named(mensen, arg) {
                Some(mensa_id) => Some(
                    seq![
                        ActionView::EditPressed {
                            text: "Gewählte Mensa: "@ + bold_text(arg),
                            markdown: true,
                        },
                        ActionView::Queue(query_for(chat_id)),
                        ActionView::SendMeals { days_forward: 0, mensa_id, markup: Markup::Plain },
                        ActionView::UpdateDb(other_mensa(chat_id, mensa_id)),
                        ActionView::Queue(other_mensa(chat_id, mensa_id)),
                    ],
                ),
                None => None,
            }
        } else if cmd == "m_disp"@ {
            match mensa_named(mensen, arg) {
                Some(mensa_id) => Some(
                    seq![
                        ActionView::EditPressed { text: bold_text(arg) + ":"@, markdown: true },
                        ActionView::SendMeals { days_forward: 0, mensa_id, markup: Markup::Plain },
                    ],
                ),
                None => None,
            }
        } else if cmd == "m_regist"@ {
            match mensa_named(mensen, arg) {
                Some(mensa_id) => Some(
                    seq![
                        ActionView::EditPressed {
                            text: descriptions
                                + "\n\nWenn /heute oder /morgen kein Wochentag ist, wird der Plan für Montag angezeigt."@,
                            markdown: false,
                        },
                        ActionView::Send {
                            text: welcome_text(arg),
                            markdown: true,
                            markup: Markup::Commands,
                        },
                        ActionView::SendMeals { days_forward: 0, mensa_id, markup: Markup::Plain },
                        ActionView::UpdateDb(first_registration(chat_id, mensa_id)),
                        ActionView::Queue(first_registration(chat_id, mensa_id)),
                    ],
                ),
                None => None,
            }
        } else if cmd == "day"@ {
            match registration {
                Some(entry) => if is_day(arg) {
                    Some(
                        seq![
                            ActionView::Queue(query_for(chat_id)),
                            ActionView::SendMeals {
                                days_forward: signed_value(arg) as i64,
                                mensa_id: entry.mensa_id,
                                markup: Markup::Plain,
                            },
                        ],
                    )
                } else {
                    None
                },
                None => Some(seq![plain(NO_DB_MSG@)]),
            }
        } else {
            None
        },
    }
}

fn send_plan(mensa_id: u32) -> (r: Action)
    ensures
        r@ == (ActionView::SendMeals { days_forward: 0, mensa_id, markup: Markup::Plain }),
{
    Action::SendMeals { days_forward: 0, mensa_id, markup: Markup::Plain }
}

fn mensa_updated(chat_id: i64, mensa: &str, mensa_id: u32) -> (r: Vec<Action>)
    ensures
        views(r@) == seq![
            ActionView::EditPressed {
                text: "Gewählte Mensa: "@ + bold_text(mensa@),
                markdown: true,
            },
            ActionView::Queue(query_for(chat_id)),
            ActionView::SendMeals { days_forward: 0, mensa_id, markup: Markup::Plain },
            ActionView::UpdateDb(other_mensa(chat_id, mensa_id)),
            ActionView::Queue(other_mensa(chat_id, mensa_id)),
        ],
{
    let mut text = owned("Gewählte Mensa: ");
    text.append(bold(mensa).as_str());
    let order = UpdateRegistrationTask {
        chat_id,
        mensa_id: Some(mensa_id),
        hour: None,
        minute: None,
    };
    vec![
        Action::EditPressed { text, markdown: true },
        Action::Queue(make_query_data(chat_id)),
        send_plan(mensa_id),
        Action::UpdateDb(JobHandlerTask::from(order)),
        Action::Queue(JobHandlerTask::from(order)),
    ]
}

fn mensa_displayed(mensa: &str, mensa_id: u32) -> (r: Vec<Action>)
    ensures
        views(r@) == seq![
            ActionView::EditPressed { text: bold_text(mensa@) + ":"@, markdown: true },
            ActionView::SendMeals { days_forward: 0, mensa_id, markup: Markup::Plain },
        ],
{
    let mut text = bold(mensa);
    text.append(":");
    vec![Action::EditPressed { text, markdown: true }, send_plan(mensa_id)]
}

fn mensa_registered(chat_id: i64, mensa: &str, mensa_id: u32, descriptions: &str) -> (r: Vec<Action>)
    ensures
        views(r@) == seq![
            ActionView::EditPressed {
                text: descriptions@
                    + "\n\nWenn /heute oder /morgen kein Wochentag ist, wird der Plan für Montag angezeigt."@,
                markdown: false,
            },
            ActionView::Send {
                text: welcome_text(mensa@),
                markdown: true,
                markup: Markup::Commands,
            },
            ActionView::SendMeals { days_forward: 0, mensa_id, markup: Markup::Plain },
            ActionView::UpdateDb(first_registration(chat_id, mensa_id)),
            ActionView::Queue(first_registration(chat_id, mensa_id)),
        ],
{
    let mut commands = owned(descriptions);
    commands.append(
        "\n\nWenn /heute oder /morgen kein Wochentag ist, wird der Plan für Montag angezeigt.",
    );
    let mut welcome = owned("Plan der ");
    welcome.append(bold(mensa).as_str());
    welcome.append(
        " wird ab jetzt automatisch an Wochentagen *06:00 Uhr* gesendet\\.\n\nÄndern mit\n/mensa oder /uhrzeit",
    );
    let order = RegisterTask { chat_id, mensa_id, hour: 6, minute: 0 };
    vec![
        Action::EditPressed { text: commands, markdown: false },
        Action::Send { text: welcome, markdown: true, markup: Markup::Commands },
        send_plan(mensa_id),
        Action::UpdateDb(JobHandlerTask::from(order)),
        Action::Queue(JobHandlerTask::from(order)),
    ]
}

fn day_pressed(chat_id: i64, arg: &str, registration: Option<RegistrationEntry>) -> (r: Option<
    Vec<Action>,
>)
    ensures
        match registration {
            Some(entry) => if is_day(arg@) {
                r matches Some(actions) && views(actions@) == seq![
                    ActionView::Queue(query_for(chat_id)),
                    ActionView::SendMeals {
                        days_forward: signed_value(arg@) as i64,
                        mensa_id: entry.mensa_id,
                        markup: Markup::Plain,
                    },
                ]
            } else {
                r is None
            },
            None => r matches Some(actions) && views(actions@) == seq![plain(NO_DB_MSG@)],
        },
{
    match registration {
        Some(entry) => match parse_day(arg) {
            Some(days_forward) => Some(
                vec![
                    Action::Queue(make_query_data(chat_id)),
                    Action::SendMeals {
                        days_forward,
                        mensa_id: entry.mensa_id,
                        markup: Markup::Plain,
                    },
                ],
            ),
            None => None,
        },
        None => Some(vec![send_plain(NO_DB_MSG)]),
    }
}

/// What the data of a pressed button leads to. `None` if the bot does not know such a button.
fn button_pressed(
    data: &str,
    chat_id: i64,
    registration: Option<RegistrationEntry>,
    mensen: &BTreeMap<u32, String>,
    descriptions: &str,
) -> (r: Option<Vec<Action>>)
    ensures
        match callback_actions(data@, chat_id, registration, mensen@, descriptions@) {
            Some(expected) => r matches Some(actions) && views(actions@) == expected,
            None => r is None,
        },
{
    match split_once(data, ':') {
        None => None,
        Some((cmd, arg)) => if same_text(cmd.as_str(), "m_upd") {
            match find_mensa(mensen, arg.as_str()) {
                Some(mensa_id) => Some(mensa_updated(chat_id, arg.as_str(), mensa_id)),
                None => None,
            }
        } else if same_text(cmd.as_str(), "m_disp") {
            match find_mensa(mensen, arg.as_str()) {
                Some(mensa_id) => Some(mensa_displayed(arg.as_str(), mensa_id)),
                None => None,
            }
        } else if same_text(cmd.as_str(), "m_regist") {
            match find_mensa(mensen, arg.as_str()) {
                Some(mensa_id) => Some(
                    mensa_registered(chat_id, arg.as_str(), mensa_id, descriptions),
                ),
                None => None,
            }
        } else if same_text(cmd.as_str(), "day") {
            day_pressed(chat_id, arg.as_str(), registration)
        } else {
            None
        },
    }
}

/// Answers a pressed button: it is acknowledged, and if the message that it belongs to is still
/// there, what its data asks for is done. `None` if the bot does not know such a button.
pub fn callback_handler(
    data: Option<&str>,
    message_is_there: bool,
    chat_id: i64,
    registration: Option<RegistrationEntry>,
    mensen: &BTreeMap<u32, String>,
    descriptions: &str,
) -> (r: Option<Vec<Action>>)
    ensures
        match data {
            None => r matches Some(actions) && actions@.len() == 0,
            Some(data) => if message_is_there {
                match callback_actions(data@, chat_id, registration, mensen@, descriptions@) {
                    Some(expected) => r matches Some(actions) && views(actions@) == seq![
                        ActionView::AnswerCallback,
                    ] + expected,
                    None => r is None,
                }
            } else {
                r matches Some(actions) && views(actions@) == seq![ActionView::AnswerCallback]
            },
        },
{
    match data {
        None => Some(Vec::new()),
        Some(data) => if message_is_there {
            match button_pressed(data, chat_id, registration, mensen, descriptions) {
                Some(mut actions) => {
                    let ghost expected = views(actions@);
                    actions.insert(0, Action::AnswerCallback);
                    assert(views(actions@) == seq![ActionView::AnswerCallback] + expected);
                    Some(actions)
                },
                None => None,
            }
        } else {
            Some(vec![Action::AnswerCallback])
        },
    }
}

/// The data of a canteen's button falls into its command and the name of the canteen, whatever
/// characters the name is made of.
pub proof fn law_mensa_data(action: MensaKeyboardAction, name: Seq<char>)
    ensures
        cut(mensa_data(action, name), ':') == Some((mensa_command(action), name)),
{
    reveal_strlit("m_regist");
    reveal_strlit("m_upd");
    reveal_strlit("m_disp");
    reveal_strlit(":");
    let cmd = mensa_command(action);
    let data = mensa_data(action, name);
    lemma_first_of(data, ':', cmd.len() as int);
    assert(data.take(cmd.len() as int) == cmd);
    assert(data.skip(cmd.len() as int + 1) == name);
}

/// The name of a canteen leads back to it, unless another one has the same name.
pub proof fn law_mensa_found_by_name(mensen: Map<u32, String>, id: u32)
    requires
        mensen.dom().contains(id),
        forall|other: u32| #[trigger]
            mensen.dom().contains(other) && mensen[other]@ == mensen[id]@ ==> other == id,
    ensures
        mensa_named(mensen, mensen[id]@) == Some(id),
{
    assert(is_mensa_named(mensen, mensen[id]@, id));
}

/// Every button of a canteen is understood, and leads to that canteen: it is entered for the chat,
/// it takes the place of the chat's canteen, or its plan is shown and nothing changes.
pub proof fn law_mensa_button(
    mensen: Map<u32, String>,
    id: u32,
    action: MensaKeyboardAction,
    chat_id: i64,
    registration: Option<RegistrationEntry>,
    descriptions: Seq<char>,
)
    requires
        mensen.dom().contains(id),
        forall|other: u32| #[trigger]
            mensen.dom().contains(other) && mensen[other]@ == mensen[id]@ ==> other == id,
    ensures
        callback_actions(
            mensa_data(action, mensen[id]@),
            chat_id,
            registration,
            mensen,
            descriptions,
        ) matches Some(actions) && match action {
            MensaKeyboardAction::Register => actions.last() == ActionView::Queue(
                first_registration(chat_id, id),
            ),
            MensaKeyboardAction::Update => actions.last() == ActionView::Queue(
                other_mensa(chat_id, id),
            ),
            MensaKeyboardAction::DisplayOnce => actions.last() == (ActionView::SendMeals {
                days_forward: 0,
                mensa_id: id,
                markup: Markup::Plain,
            }) && changes_nothing(actions),
        },
{
    law_mensa_data(action, mensen[id]@);
    law_mensa_found_by_name(mensen, id);
    reveal_strlit("m_regist");
    reveal_strlit("m_upd");
    reveal_strlit("m_disp");
    assert("m_regist"@.len() == 8 && "m_upd"@.len() == 5 && "m_disp"@.len() == 6);
}

} // verus!
