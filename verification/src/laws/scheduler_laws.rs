//! What the task scheduler does with its orders, and who hears of changed plans.
use crate::data_types::stuwe_data_types::CanteenMealDiff;
use crate::data_types::{BroadcastUpdateTask, JobHandlerTask, JobType, RegistrationEntry};
use crate::db_operations::{
    law_update_sets_given, restoring, row_updates, statement_text, stored_all, DbChange,
    RegistrationRow,
};
use crate::laws::text_laws::{joined, law_parts_of_joined};
use crate::lines::free_of;
use crate::shared_main::{cron_days, job_of, loads_or_not, schedule_text, DailyJob, LoadJob};
use crate::task_scheduler_funcs::{
    answers_order, change_text, changed_canteen, consistent, due_chats, fits, is_due,
    lemma_due_chats, performed, restored, restoring_all, settled, tells, tells_at_some_times,
    whole_time, PlanView, SchedulerPlan, SchedulerStep, World,
};
use crate::calendar::{utc_day, utc_time};
use crate::markdown::{bold_text, underline_text};
use crate::text::{dec, is_digit, lemma_decimal_round_trip, parts};
use uuid::Uuid;
use vstd::prelude::*;

verus! {

// ---------------------------------------------------------------------------------------------
// Changed plans
// ---------------------------------------------------------------------------------------------

/// The minute of the day.
pub open spec fn minute_of_day(hour: u32, minute: u32) -> int {
    hour * 60 + minute
}

/// A chat is told of a changed plan if and only if it has a daily message from that canteen, and the
/// minute of the day at which that is sent has passed.
pub proof fn law_due(entry: RegistrationEntry, mensa_id: u32, now: (u32, u32))
    requires
        entry.minute matches Some(minute) ==> minute < 60,
        now.1 < 60,
    ensures
        is_due(entry, mensa_id, now) <==> {
            &&& entry.mensa_id == mensa_id
            &&& entry.hour is Some
            &&& entry.minute is Some
            &&& minute_of_day(entry.hour->0, entry.minute->0) < minute_of_day(now.0, now.1)
        },
{
}

/// Once a chat is due it stays due for the rest of the day, and where one chat is due, so is every chat
/// of the same canteen whose daily message comes no later.
pub proof fn law_due_stays(
    entry: RegistrationEntry,
    other: RegistrationEntry,
    mensa_id: u32,
    now: (u32, u32),
    later: (u32, u32),
)
    requires
        is_due(entry, mensa_id, now),
        entry.minute->0 < 60,
        now.1 < 60,
        later.1 < 60,
        minute_of_day(now.0, now.1) <= minute_of_day(later.0, later.1),
        other.mensa_id == entry.mensa_id,
        other.hour is Some,
        other.minute is Some,
        other.minute->0 < 60,
        minute_of_day(other.hour->0, other.minute->0) <= minute_of_day(
            entry.hour->0,
            entry.minute->0,
        ),
    ensures
        is_due(entry, mensa_id, later),
        is_due(other, mensa_id, later),
{
}

/// Whether the times of all chats are times of day.
pub open spec fn times_of_day(registrations: Map<i64, RegistrationEntry>) -> bool {
    forall|chat: i64| #[trigger]
        registrations.dom().contains(chat) ==> (registrations[chat].minute matches Some(minute)
            ==> minute < 60)
}

/// Whether a chat hears of a change: it has a daily message from the canteen, at an earlier minute of
/// the day than the clock shows.
pub open spec fn hears(entry: RegistrationEntry, mensa_id: u32, clock: (u32, u32)) -> bool {
    &&& entry.mensa_id == mensa_id
    &&& entry.hour is Some
    &&& entry.minute is Some
    &&& minute_of_day(entry.hour->0, entry.minute->0) < minute_of_day(clock.0, clock.1)
}

/// The chats that are told of a change are those, and no others, whose daily message from the canteen
/// was due before the time at which it is their turn. Each is told once, from the smallest number to
/// the largest.
pub proof fn law_told(
    told: Seq<i64>,
    registrations: Map<i64, RegistrationEntry>,
    mensa_id: u32,
    chats: Seq<i64>,
    times: Seq<(u32, u32)>,
)
    requires
        tells(told, registrations, mensa_id, chats, times),
        times_of_day(registrations),
    ensures
        forall|i: int|
            0 <= i < chats.len() ==> (told.contains(#[trigger] chats[i]) <==> hears(
                registrations[chats[i]],
                mensa_id,
                times[i],
            )),
        forall|chat: i64| #[trigger]
            told.contains(chat) ==> registrations.dom().contains(chat) && chats.contains(chat),
        forall|i: int, j: int| 0 <= i < j < told.len() ==> #[trigger] told[i] < #[trigger] told[j],
{
    let n = chats.len() as int;
    lemma_due_chats(chats, registrations, mensa_id, times, n);
    assert forall|i: int| 0 <= i < n implies (told.contains(#[trigger] chats[i]) <==> hears(
        registrations[chats[i]],
        mensa_id,
        times[i],
    )) by {
        let chat = chats[i];
        assert(chats.contains(chat));
        assert(registrations.dom().contains(chat));
        law_due(registrations[chat], mensa_id, times[i]);
        if told.contains(chat) {
            let k = choose|k: int|
                0 <= k < n && #[trigger] chats[k] == chat && is_due(
                    registrations[chat],
                    mensa_id,
                    times[k],
                );
            if k < i {
                assert(chats[k] < chats[i]);
            } else if i < k {
                assert(chats[i] < chats[k]);
            }
        }
    }
    assert forall|chat: i64| #[trigger] told.contains(chat) implies registrations.dom().contains(
        chat,
    ) && chats.contains(chat) by {
        let k = choose|k: int|
            0 <= k < n && #[trigger] chats[k] == chat && is_due(
                registrations[chat],
                mensa_id,
                times[k],
            );
        assert(chats.contains(chats[k]));
    }
    lemma_told_in_order(chats, registrations, mensa_id, times, n);
}

proof fn lemma_told_in_order(
    chats: Seq<i64>,
    registrations: Map<i64, RegistrationEntry>,
    mensa_id: u32,
    times: Seq<(u32, u32)>,
    n: int,
)
    requires
        0 <= n <= chats.len(),
        forall|i: int, j: int| 0 <= i < j < chats.len() ==> #[trigger] chats[i] < #[trigger] chats[j],
    ensures
        ({
            let told = due_chats(chats, registrations, mensa_id, times, n);
            &&& forall|i: int, j: int|
                0 <= i < j < told.len() ==> #[trigger] told[i] < #[trigger] told[j]
            &&& forall|i: int|
                0 <= i < told.len() ==> exists|k: int|
                    0 <= k < n && #[trigger] chats[k] == #[trigger] told[i]
        }),
    decreases n,
{
    if n > 0 {
        lemma_told_in_order(chats, registrations, mensa_id, times, n - 1);
        let before = due_chats(chats, registrations, mensa_id, times, n - 1);
        let told = due_chats(chats, registrations, mensa_id, times, n);
        if told.len() > before.len() {
            assert forall|i: int, j: int| 0 <= i < j < told.len() implies #[trigger] told[i]
                < #[trigger] told[j] by {
                if j == before.len() {
                    let k = choose|k: int| 0 <= k < n - 1 && #[trigger] chats[k] == before[i];
                    assert(chats[k] < chats[n - 1]);
                } else {
                    assert(before[i] < before[j]);
                }
            }
            assert forall|i: int| 0 <= i < told.len() implies exists|k: int|
                0 <= k < n && #[trigger] chats[k] == #[trigger] told[i] by {
                if i < before.len() {
                    let k = choose|k: int| 0 <= k < n - 1 && #[trigger] chats[k] == before[i];
                    assert(chats[k] == told[i]);
                } else {
                    assert(chats[n - 1] == told[i]);
                }
            }
        }
    }
}

/// Whatever the clock shows, there is a time of day for each chat such that it is told if and only if
/// its daily message from the canteen was due before that. Each is told once, from the smallest number
/// to the largest.
pub proof fn law_told_whenever(
    told: Seq<i64>,
    registrations: Map<i64, RegistrationEntry>,
    mensa_id: u32,
)
    requires
        tells_at_some_times(told, registrations, mensa_id),
        times_of_day(registrations),
    ensures
        exists|clock: Map<i64, (u32, u32)>|
            #![trigger shows_times(clock)]
            shows_times(clock) && forall|chat: i64| #[trigger]
                told.contains(chat) <==> registrations.dom().contains(chat) && hears(
                    registrations[chat],
                    mensa_id,
                    clock[chat],
                ),
        forall|i: int, j: int| 0 <= i < j < told.len() ==> #[trigger] told[i] < #[trigger] told[j],
{
    let (chats, times) = choose|chats: Seq<i64>, times: Seq<(u32, u32)>| #[trigger]
        tells(told, registrations, mensa_id, chats, times);
    law_told(told, registrations, mensa_id, chats, times);
    let place = |chat: i64| choose|i: int| 0 <= i < chats.len() && chats[i] == chat;
    let clock = Map::<i64, (u32, u32)>::new(
        |chat: i64| true,
        |chat: i64|
            if chats.contains(chat) {
                times[place(chat)]
            } else {
                (0u32, 0u32)
            },
    );
    assert(shows_times(clock)) by {
        assert forall|chat: i64| (#[trigger] clock[chat]).0 < 24 && clock[chat].1 < 60 by {
            if chats.contains(chat) {
                let i = place(chat);
                assert(0 <= i < chats.len() && chats[i] == chat);
            }
        }
    }
    assert forall|chat: i64| #[trigger] told.contains(chat) <==> registrations.dom().contains(chat)
        && hears(registrations[chat], mensa_id, clock[chat]) by {
        assert(chats.contains(chat) <==> registrations.dom().contains(chat));
        if chats.contains(chat) {
            let i = place(chat);
            assert(0 <= i < chats.len() && chats[i] == chat);
            assert(told.contains(chats[i]) <==> hears(registrations[chats[i]], mensa_id, times[i]));
        }
    }
}

/// Whether a clock shows times of day.
pub open spec fn shows_times(clock: Map<i64, (u32, u32)>) -> bool {
    forall|chat: i64| (#[trigger] clock[chat]).0 < 24 && clock[chat].1 < 60
}

/// A change is announced above the plan, which follows as it is.
pub proof fn law_change_text(plan: Seq<char>)
    ensures
        change_text(plan) == "*__Planänderung:__*\n"@ + plan,
{
    reveal_strlit("Planänderung:");
    reveal_strlit("\n");
    reveal_strlit("*__Planänderung:__*\n");
    assert(bold_text(underline_text("Planänderung:"@)) + "\n"@ == "*__Planänderung:__*\n"@);
}

/// The canteen whose plan has changed is the one that the order names, or else the one whose
/// differences it brings.
pub proof fn law_changed_canteen(task: JobHandlerTask, diff: CanteenMealDiff)
    ensures
        task.mensa_id is Some ==> changed_canteen(task) == task.mensa_id,
        task.mensa_id is None && task.meals_diff is None ==> changed_canteen(task) is None,
        changed_canteen((BroadcastUpdateTask { meals_diff: diff }).order()) == Some(
            diff.canteen_id,
        ),
{
}

// ---------------------------------------------------------------------------------------------
// Orders
// ---------------------------------------------------------------------------------------------

/// Whether the jobs after an order are those before it, but for those of one chat, which has `job` now
/// if it is to have one.
pub open spec fn only_job_is(
    before: Map<Uuid, DailyJob>,
    after: Map<Uuid, DailyJob>,
    chat: i64,
    fresh: Uuid,
    job: Option<DailyJob>,
) -> bool {
    forall|uuid: Uuid|
        #![trigger after.dom().contains(uuid)]
        if uuid == fresh {
            match job {
                Some(job) => after.dom().contains(uuid) && after[uuid] == job,
                None => !after.dom().contains(uuid),
            }
        } else if before.dom().contains(uuid) && before[uuid].chat_id != chat {
            after.dom().contains(uuid) && after[uuid] == before[uuid]
        } else {
            !after.dom().contains(uuid)
        }
}

/// What is said of a plan is said of what it holds.
pub proof fn law_plan_view(plan: SchedulerPlan)
    ensures
        plan@.chat_id == plan.chat_id,
        plan@.unload == plan.unload,
        plan@.load == plan.load,
        plan@.entry == plan.entry,
        plan@.changes == plan.changes@,
{
}

/// To enter a chat is to register it for the canteen and the time of the order, to write both down, and
/// to have one job for it: one that sends the plan of this canteen at this time.
pub proof fn law_entering(
    world: World,
    task: JobHandlerTask,
    plan: SchedulerPlan,
    fresh: Uuid,
    chat: i64,
    mensa_id: u32,
    hour: u32,
    minute: u32,
)
    requires
        consistent(world),
        !world.jobs.dom().contains(fresh),
        task.job_type == JobType::Register,
        task.chat_id == Some(chat),
        task.mensa_id == Some(mensa_id),
        task.hour == Some(hour),
        task.minute == Some(minute),
        answers_order(world.registrations, task, SchedulerStep::Carry(plan)),
    ensures
        ({
            let after = performed(world, plan@, fresh);
            &&& after.registrations == world.registrations.insert(
                chat,
                RegistrationEntry {
                    job_uuid: Some(fresh),
                    mensa_id,
                    hour: Some(hour),
                    minute: Some(minute),
                },
            )
            &&& after.table == world.table.insert(
                chat,
                RegistrationRow { chat_id: chat, mensa_id, hour: Some(hour), minute: Some(minute) },
            )
            &&& only_job_is(
                world.jobs,
                after.jobs,
                chat,
                fresh,
                Some(DailyJob { chat_id: chat, mensa_id, hour, minute }),
            )
        }),
        plan@.changes == seq![
            DbChange::Replace(
                RegistrationRow { chat_id: chat, mensa_id, hour: Some(hour), minute: Some(minute) },
            ),
        ],
{
    reveal_with_fuel(stored_all, 2);
    assert(plan@.changes.drop_last() == Seq::<DbChange>::empty());
    lemma_jobs_of_chat(world, chat);
}

/// The jobs of a chat that fit together with everything are the one that is registered for it.
proof fn lemma_jobs_of_chat(world: World, chat: i64)
    requires
        consistent(world),
    ensures
        forall|uuid: Uuid| #[trigger]
            world.jobs.dom().contains(uuid) ==> (world.jobs[uuid].chat_id == chat <==> (
            world.registrations.dom().contains(chat) && world.registrations[chat].job_uuid == Some(
                uuid,
            ))),
{
    assert forall|uuid: Uuid| #[trigger] world.jobs.dom().contains(uuid) implies (
    world.jobs[uuid].chat_id == chat <==> (world.registrations.dom().contains(chat)
        && world.registrations[chat].job_uuid == Some(uuid))) by {
        if world.registrations.dom().contains(chat) {
            assert(fits(chat, world.registrations[chat], world.table[chat], world.jobs));
        }
    }
}

/// The new value where there is one, else the old one.
pub open spec fn given_or<T>(given: Option<T>, before: T) -> T {
    match given {
        Some(value) => value,
        None => before,
    }
}

/// An order that changes something leaves what it does not name as it was, registers and writes down
/// what it names, and leaves the chat with one job for its canteen and its time, or with none if it has
/// no time.
pub proof fn law_changing(
    world: World,
    task: JobHandlerTask,
    plan: SchedulerPlan,
    fresh: Uuid,
    chat: i64,
)
    requires
        consistent(world),
        !world.jobs.dom().contains(fresh),
        task.job_type == JobType::UpdateRegistration,
        task.chat_id == Some(chat),
        task.mensa_id is Some || task.hour is Some,
        whole_time(task),
        world.registrations.dom().contains(chat),
        answers_order(world.registrations, task, SchedulerStep::Carry(plan)),
    ensures
        ({
            let before = world.registrations[chat];
            let mensa_id = given_or(task.mensa_id, before.mensa_id);
            let hour = match task.hour {
                Some(_) => task.hour,
                None => before.hour,
            };
            let minute = match task.minute {
                Some(_) => task.minute,
                None => before.minute,
            };
            let after = performed(world, plan@, fresh);
            &&& after.registrations == world.registrations.insert(
                chat,
                RegistrationEntry {
                    job_uuid: if hour is Some {
                        Some(fresh)
                    } else {
                        None
                    },
                    mensa_id,
                    hour,
                    minute,
                },
            )
            &&& after.table == world.table.insert(
                chat,
                RegistrationRow { chat_id: chat, mensa_id, hour, minute },
            )
            &&& only_job_is(
                world.jobs,
                after.jobs,
                chat,
                fresh,
                if hour is Some {
                    Some(
                        DailyJob { chat_id: chat, mensa_id, hour: hour->0, minute: minute->0 },
                    )
                } else {
                    None
                },
            )
        }),
{
    lemma_jobs_of_chat(world, chat);
    assert(fits(chat, world.registrations[chat], world.table[chat], world.jobs));
    law_update_sets_given(world.table, chat, task.mensa_id, task.hour, task.minute);
}

/// Stopping the daily message of a chat leaves it registered for its canteen, without a time and without
/// a job, and writes that down.
pub proof fn law_stopping(
    world: World,
    task: JobHandlerTask,
    plan: SchedulerPlan,
    fresh: Uuid,
    chat: i64,
)
    requires
        consistent(world),
        !world.jobs.dom().contains(fresh),
        task.job_type == JobType::DeleteRegistration,
        task.chat_id == Some(chat),
        world.registrations.dom().contains(chat),
        answers_order(world.registrations, task, SchedulerStep::Carry(plan)),
    ensures
        ({
            let mensa_id = world.registrations[chat].mensa_id;
            let after = performed(world, plan@, fresh);
            &&& after.registrations == world.registrations.insert(
                chat,
                RegistrationEntry { job_uuid: None, mensa_id, hour: None, minute: None },
            )
            &&& after.table == world.table.insert(
                chat,
                RegistrationRow { chat_id: chat, mensa_id, hour: None, minute: None },
            )
            &&& only_job_is(world.jobs, after.jobs, chat, fresh, None)
        }),
        plan@.changes == seq![DbChange::ClearTime { chat_id: chat }],
{
    reveal_with_fuel(stored_all, 2);
    assert(plan@.changes.drop_last() == Seq::<DbChange>::empty());
    lemma_jobs_of_chat(world, chat);
    assert(fits(chat, world.registrations[chat], world.table[chat], world.jobs));
}

/// The plan for an order, whatever is known of its chat: what the order names takes the place of what
/// was registered, the rest stays. If it names anything, the chat's job goes, and one for the new
/// canteen and the new time comes if there is a time. If it names nothing, the job stays.
pub proof fn law_change_plan(
    registrations: Map<i64, RegistrationEntry>,
    task: JobHandlerTask,
    plan: SchedulerPlan,
    chat: i64,
)
    requires
        task.job_type == JobType::UpdateRegistration,
        task.chat_id == Some(chat),
        registrations.dom().contains(chat),
        answers_order(registrations, task, SchedulerStep::Carry(plan)),
    ensures
        ({
            let before = registrations[chat];
            let named = task.mensa_id is Some || task.hour is Some || task.minute is Some;
            &&& plan.chat_id == chat
            &&& plan.entry.mensa_id == given_or(task.mensa_id, before.mensa_id)
            &&& plan.entry.hour == (match task.hour {
                Some(_) => task.hour,
                None => before.hour,
            })
            &&& plan.entry.minute == (match task.minute {
                Some(_) => task.minute,
                None => before.minute,
            })
            &&& named ==> plan.entry.job_uuid is None && plan.unload == before.job_uuid
            &&& !named ==> plan.entry.job_uuid == before.job_uuid && plan.unload is None
                && plan.load is None
            &&& named && plan.entry.hour is None ==> plan.load is None
            &&& named && plan.entry.hour is Some ==> (plan.load matches Some(job) && {
                &&& job.chat_id == chat
                &&& job.mensa_id == plan.entry.mensa_id
                &&& job.hour == plan.entry.hour->0
                &&& plan.entry.minute is Some ==> job.minute == plan.entry.minute->0
            })
        }),
{
}

/// The plan for a chat that is entered or that stops, whatever is known of it: the job that it had
/// goes. The canteen of one that stops stays.
pub proof fn law_other_plans(
    registrations: Map<i64, RegistrationEntry>,
    task: JobHandlerTask,
    plan: SchedulerPlan,
    chat: i64,
)
    requires
        task.job_type == JobType::Register || task.job_type == JobType::DeleteRegistration,
        task.job_type == JobType::DeleteRegistration ==> registrations.dom().contains(chat),
        task.chat_id == Some(chat),
        answers_order(registrations, task, SchedulerStep::Carry(plan)),
    ensures
        plan.chat_id == chat,
        registrations.dom().contains(chat) ==> plan.unload == registrations[chat].job_uuid,
        !registrations.dom().contains(chat) ==> plan.unload is None,
        plan.entry.job_uuid is None,
        task.job_type == JobType::DeleteRegistration ==> plan.load is None && plan.entry.hour is None
            && plan.entry.minute is None && plan.entry.mensa_id == registrations[chat].mensa_id,
        task.job_type == JobType::Register && task.hour is Some && task.minute is Some
            && task.mensa_id is Some ==> plan.entry.hour == task.hour && plan.entry.minute
            == task.minute && Some(plan.entry.mensa_id) == task.mensa_id && plan.load == Some(
            DailyJob {
                chat_id: chat,
                mensa_id: task.mensa_id->0,
                hour: task.hour->0,
                minute: task.minute->0,
            },
        ),
{
}

/// What comes of an order: a plan to carry out where something is to change, a word to the chat where
/// it has not been entered, and an answer or a list of chats where nothing is to change.
pub proof fn law_steps(
    registrations: Map<i64, RegistrationEntry>,
    task: JobHandlerTask,
    step: SchedulerStep,
    chat: i64,
)
    requires
        answers_order(registrations, task, step),
        task.chat_id == Some(chat),
    ensures
        task.job_type == JobType::Register ==> step is Carry,
        task.job_type == JobType::DeleteRegistration ==> step is Carry,
        task.job_type == JobType::UpdateRegistration && registrations.dom().contains(chat)
            ==> step is Carry,
        task.job_type == JobType::UpdateRegistration && !registrations.dom().contains(chat) ==> (
        step matches SchedulerStep::Notify { chat_id, text } && chat_id == chat && text@
            == "Bitte zuerst /start ausführen"@),
        task.job_type == JobType::QueryRegistration ==> step == SchedulerStep::Answer(
            if registrations.dom().contains(chat) {
                Some(registrations[chat])
            } else {
                None
            },
        ),
        task.job_type == JobType::BroadcastUpdate ==> (step matches SchedulerStep::Tell(told)
            && tells_at_some_times(told@, registrations, changed_canteen(task)->0)),
{
}

/// What is registered once a job is loaded is what was planned, with that job; without one, with the
/// job that was planned.
pub proof fn law_settled(plan: PlanView, uuid: Uuid)
    ensures
        settled(plan, Some(uuid)) == (RegistrationEntry {
            job_uuid: Some(uuid),
            mensa_id: plan.entry.mensa_id,
            hour: plan.entry.hour,
            minute: plan.entry.minute,
        }),
        settled(plan, None) == plan.entry,
{
}

/// An order has one statement for each thing that it names, and none for what it does not name.
pub proof fn law_statements_of_order(
    chat: i64,
    mensa: Option<u32>,
    hour: Option<u32>,
    minute: Option<u32>,
    change: DbChange,
)
    ensures
        row_updates(Some(chat), mensa, hour, minute).contains(change) <==> {
            ||| mensa is Some && change == (DbChange::SetMensa { chat_id: chat, mensa_id: mensa->0 })
            ||| hour is Some && change == (DbChange::SetHour { chat_id: chat, hour: hour->0 })
            ||| minute is Some && change == (DbChange::SetMinute {
                chat_id: chat,
                minute: minute->0,
            })
        },
        row_updates(Some(chat), mensa, hour, minute).len() == (if mensa is Some {
            1int
        } else {
            0
        }) + (if hour is Some {
            1int
        } else {
            0
        }) + (if minute is Some {
            1int
        } else {
            0
        }),
        row_updates(None, mensa, hour, minute).len() == 0,
{
    let all = row_updates(Some(chat), mensa, hour, minute);
    if mensa is Some {
        assert(all[0] == (DbChange::SetMensa { chat_id: chat, mensa_id: mensa->0 }));
    }
    let k: int = if mensa is Some {
        1
    } else {
        0
    };
    if hour is Some {
        assert(all[k] == (DbChange::SetHour { chat_id: chat, hour: hour->0 }));
    }
    if minute is Some {
        assert(all.last() == (DbChange::SetMinute { chat_id: chat, minute: minute->0 }));
        assert(all[all.len() - 1] == all.last());
    }
}

/// Each statement changes the column that it is named after, in the row of the chat.
pub proof fn law_statement_texts(chat_id: i64, number: u32, row: RegistrationRow)
    ensures
        statement_text(DbChange::SetMensa { chat_id, mensa_id: number })
            == "UPDATE registrations SET "@ + "mensa_id"@ + " = ?2 WHERE chat_id = ?1"@,
        statement_text(DbChange::SetHour { chat_id, hour: number }) == "UPDATE registrations SET "@
            + "hour"@ + " = ?2 WHERE chat_id = ?1"@,
        statement_text(DbChange::SetMinute { chat_id, minute: number })
            == "UPDATE registrations SET "@ + "minute"@ + " = ?2 WHERE chat_id = ?1"@,
        statement_text(DbChange::ClearTime { chat_id }) == "UPDATE registrations SET "@
            + "hour = NULL, minute"@ + " = NULL WHERE chat_id = ?1"@,
        statement_text(DbChange::Replace(row)) == "replace into registrations "@
            + "(chat_id, mensa_id, hour, minute)"@ + " values (?1, ?2, ?3, ?4)"@,
{
    reveal_strlit("UPDATE registrations SET ");
    reveal_strlit("mensa_id");
    reveal_strlit("hour");
    reveal_strlit("minute");
    reveal_strlit(" = ?2 WHERE chat_id = ?1");
    reveal_strlit("UPDATE registrations SET mensa_id = ?2 WHERE chat_id = ?1");
    reveal_strlit("UPDATE registrations SET hour = ?2 WHERE chat_id = ?1");
    reveal_strlit("UPDATE registrations SET minute = ?2 WHERE chat_id = ?1");
    reveal_strlit("UPDATE registrations SET hour = NULL, minute = NULL WHERE chat_id = ?1");
    reveal_strlit("hour = NULL, minute");
    reveal_strlit(" = NULL WHERE chat_id = ?1");
    reveal_strlit("replace into registrations ");
    reveal_strlit("(chat_id, mensa_id, hour, minute)");
    reveal_strlit(" values (?1, ?2, ?3, ?4)");
    reveal_strlit(
        "replace into registrations (chat_id, mensa_id, hour, minute) values (?1, ?2, ?3, ?4)",
    );
}

/// What the last row of a chat holds is what is registered after a restart, with the job that was loaded
/// for it, and nothing is registered for a chat without a row.
pub proof fn law_row_is_restored(
    rows: Seq<RegistrationRow>,
    uuids: Seq<Option<Uuid>>,
    n: int,
    i: int,
    chat: i64,
)
    requires
        0 <= i < n <= rows.len(),
        uuids.len() == rows.len(),
        forall|j: int| i < j < n ==> (#[trigger] rows[j]).chat_id != rows[i].chat_id,
    ensures
        ({
            let all = restored(restoring_all(rows), uuids, n);
            &&& all.dom().contains(rows[i].chat_id)
            &&& all[rows[i].chat_id] == (RegistrationEntry {
                job_uuid: uuids[i],
                mensa_id: rows[i].mensa_id,
                hour: rows[i].hour,
                minute: rows[i].minute,
            })
            &&& all.dom().contains(chat) ==> exists|k: int|
                0 <= k < n && (#[trigger] rows[k]).chat_id == chat
        }),
        restoring(rows[i]) == (JobHandlerTask {
            job_type: JobType::UpdateRegistration,
            chat_id: Some(rows[i].chat_id),
            mensa_id: Some(rows[i].mensa_id),
            hour: rows[i].hour,
            minute: rows[i].minute,
            meals_diff: None,
        }),
{
    lemma_row_is_restored(rows, uuids, n, i);
    if restored(restoring_all(rows), uuids, n).dom().contains(chat) {
        lemma_only_rows_are_restored(rows, uuids, n, chat);
    }
}

proof fn lemma_row_is_restored(
    rows: Seq<RegistrationRow>,
    uuids: Seq<Option<Uuid>>,
    n: int,
    i: int,
)
    requires
        0 <= i < n <= rows.len(),
        uuids.len() == rows.len(),
        forall|j: int| i < j < n ==> (#[trigger] rows[j]).chat_id != rows[i].chat_id,
    ensures
        ({
            let all = restored(restoring_all(rows), uuids, n);
            &&& all.dom().contains(rows[i].chat_id)
            &&& all[rows[i].chat_id] == (RegistrationEntry {
                job_uuid: uuids[i],
                mensa_id: rows[i].mensa_id,
                hour: rows[i].hour,
                minute: rows[i].minute,
            })
        }),
    decreases n,
{
    assert(restoring_all(rows)[n - 1] == restoring(rows[n - 1]));
    if i < n - 1 {
        lemma_row_is_restored(rows, uuids, n - 1, i);
        assert(rows[n - 1].chat_id != rows[i].chat_id);
    }
}

proof fn lemma_only_rows_are_restored(
    rows: Seq<RegistrationRow>,
    uuids: Seq<Option<Uuid>>,
    n: int,
    chat: i64,
)
    requires
        0 <= n <= rows.len(),
        restored(restoring_all(rows), uuids, n).dom().contains(chat),
    ensures
        exists|k: int| 0 <= k < n && (#[trigger] rows[k]).chat_id == chat,
    decreases n,
{
    if n > 0 {
        assert(restoring_all(rows)[n - 1] == restoring(rows[n - 1]));
        if rows[n - 1].chat_id != chat {
            lemma_only_rows_are_restored(rows, uuids, n - 1, chat);
        }
    }
}

// ---------------------------------------------------------------------------------------------
// Daily jobs
// ---------------------------------------------------------------------------------------------

/// An order with a time has a job for its chat, its canteen and its time; one without a time has none.
pub proof fn law_job_of_order(
    chat: i64,
    mensa: u32,
    hour: u32,
    minute: u32,
    no_hour: Option<u32>,
    any_minute: Option<u32>,
)
    requires
        no_hour is None,
    ensures
        job_of(Some(chat), Some(mensa), Some(hour), Some(minute)) == Some(
            DailyJob { chat_id: chat, mensa_id: mensa, hour, minute },
        ),
        job_of(Some(chat), Some(mensa), no_hour, any_minute) is None,
{
}

proof fn lemma_no_blank(s: Seq<char>)
    requires
        crate::text::all_digits(s),
    ensures
        free_of(s, ' '),
{
    assert forall|i: int| 0 <= i < s.len() implies #[trigger] s[i] != ' ' by {
        assert(is_digit(s[i]));
    }
}

/// A schedule has six fields: second, minute, hour, any day of the month, any month, and the weekdays.
/// The minute and the hour are those of UTC when it is the local time of the job.
pub proof fn law_schedule_fields(hour: int, minute: int, offset: int)
    requires
        0 <= hour < 24,
        0 <= minute < 60,
        -86400 < offset < 86400,
    ensures
        ({
            let utc = utc_time(hour, minute, offset);
            parts(schedule_text(hour, minute, offset), ' ') == seq![
                "0"@,
                dec(utc.1 as nat),
                dec(utc.0 as nat),
                "*"@,
                "*"@,
                cron_days(utc_day(hour, minute, offset)),
            ]
        }),
{
    reveal_strlit("0");
    reveal_strlit("0 ");
    reveal_strlit(" ");
    reveal_strlit("*");
    reveal_strlit(" * * ");
    reveal_strlit("Sun,Mon,Tue,Wed,Thu");
    reveal_strlit("Tue,Wed,Thu,Fri,Sat");
    reveal_strlit("Mon,Tue,Wed,Thu,Fri");
    let utc = utc_time(hour, minute, offset);
    let (m, h) = (dec(utc.1 as nat), dec(utc.0 as nat));
    let days = cron_days(utc_day(hour, minute, offset));
    lemma_decimal_round_trip(utc.1 as nat);
    lemma_decimal_round_trip(utc.0 as nat);
    lemma_no_blank(m);
    lemma_no_blank(h);
    let all = seq!["0"@, m, h, "*"@, "*"@, days];
    assert forall|i: int| 0 <= i < all.len() implies free_of(#[trigger] all[i], ' ') by {
        assert(i == 0 || i == 1 || i == 2 || i == 3 || i == 4 || i == 5);
    }
    reveal_with_fuel(joined, 7);
    let five = all.drop_last();
    let four = five.drop_last();
    let three = four.drop_last();
    let two = three.drop_last();
    let one = two.drop_last();
    assert(joined(one, ' ') == "0"@);
    assert(joined(two, ' ') == "0 "@ + m);
    assert(joined(three, ' ') == "0 "@ + m + " "@ + h);
    assert(joined(four, ' ') == "0 "@ + m + " "@ + h + " *"@) by {
        reveal_strlit(" *");
    }
    assert(joined(five, ' ') == "0 "@ + m + " "@ + h + " * *"@) by {
        reveal_strlit(" *");
        reveal_strlit(" * *");
    }
    reveal_strlit(" * *");
    assert(joined(all, ' ') == schedule_text(hour, minute, offset));
    law_parts_of_joined(all, ' ');
}

/// What is loaded is the job that was asked for, at a schedule for its own hour and minute.
pub proof fn law_loaded_job(load: LoadJob, job: DailyJob)
    requires
        loads_or_not(load, job),
    ensures
        load != LoadJob::NoTime,
        load matches LoadJob::Load { job: loaded, offset, schedule } ==> {
            &&& loaded.chat_id == job.chat_id
            &&& loaded.mensa_id == job.mensa_id
            &&& loaded.hour == job.hour
            &&& loaded.minute == job.minute
            &&& offset.is_for(job.hour, job.minute)
            &&& schedule@ == schedule_text(job.hour as int, job.minute as int, offset.ahead())
        },
{
}

} // verus!
