//! What the task scheduler of the button bot does with its orders.
use crate::button_bot::data_types::{JobHandlerTask, JobType, RegistrationEntry};
use crate::button_bot::db_operations::{
    law_update_sets_given, restoring, row_updates, statement_text, stored_all, DbChange,
    RegistrationRow,
};
use crate::button_bot::scheduler::{
    answers_order, job_fits, jobs_after, jobs_match, plain_entries, registration_of,
    registrations_after, restored, SchedulerPlan, SchedulerStep,
};
use crate::data_types::Backend;
use crate::laws::scheduler_laws::{
    given_or, hears, law_told_whenever, only_job_is, shows_times, times_of_day,
};
use crate::shared_main::DailyJob;
use uuid::Uuid;
use vstd::prelude::*;

verus! {

/// What is said of a plan is said of what it holds.
pub proof fn law_plan_view(plan: SchedulerPlan)
    ensures
        plan@.chat_id == plan.chat_id,
        plan@.unload == plan.unload,
        plan@.load == plan.load,
        plan@.entry == plan.entry,
        plan@.changes == plan.changes@,
{
}

/// The jobs of a chat are the one that is registered for it.
proof fn lemma_jobs_of_chat(
    registrations: Map<i64, RegistrationEntry>,
    jobs: Map<Uuid, DailyJob>,
    chat: i64,
)
    requires
        jobs_match(registrations, jobs),
    ensures
        forall|uuid: Uuid| #[trigger]
            jobs.dom().contains(uuid) ==> (jobs[uuid].chat_id == chat <==> (
            registrations.dom().contains(chat) && registrations[chat].job_uuid == Some(uuid))),
{
    assert forall|uuid: Uuid| #[trigger] jobs.dom().contains(uuid) implies (jobs[uuid].chat_id
        == chat <==> (registrations.dom().contains(chat) && registrations[chat].job_uuid == Some(
        uuid,
    ))) by {
        if registrations.dom().contains(chat) {
            assert(job_fits(chat, registrations[chat], jobs));
        }
    }
}

/// To enter a chat is to register it for the canteen and the time of the order, to write both down, and
/// to have one job for it: one that sends the plan of this canteen at this time. The message with
/// buttons stays known.
pub proof fn law_entering(
    backend: Backend,
    registrations: Map<i64, RegistrationEntry>,
    jobs: Map<Uuid, DailyJob>,
    table: Map<i64, RegistrationRow>,
    task: JobHandlerTask,
    plan: SchedulerPlan,
    fresh: Uuid,
    chat: i64,
    mensa_id: u8,
    hour: u32,
    minute: u32,
)
    requires
        jobs_match(registrations, jobs),
        !jobs.dom().contains(fresh),
        task.job_type == JobType::Register,
        task.chat_id == Some(chat),
        task.mensa_id == Some(mensa_id),
        task.hour == Some(hour),
        task.minute == Some(minute),
        answers_order(backend, registrations, task, SchedulerStep::Carry(plan)),
    ensures
        registrations_after(registrations, plan@, fresh) == registrations.insert(
            chat,
            RegistrationEntry {
                job_uuid: Some(fresh),
                mensa_id,
                hour: Some(hour),
                minute: Some(minute),
                callback_id: if registrations.dom().contains(chat) {
                    registrations[chat].callback_id
                } else {
                    None
                },
            },
        ),
        only_job_is(
            jobs,
            jobs_after(jobs, plan@, fresh),
            chat,
            fresh,
            Some(DailyJob { chat_id: chat, mensa_id: mensa_id as u32, hour, minute }),
        ),
        stored_all(table, plan@.changes) == table.insert(
            chat,
            RegistrationRow {
                chat_id: chat,
                mensa_id,
                hour: Some(hour),
                minute: Some(minute),
                last_callback_id: None,
            },
        ),
        plan@.changes == seq![DbChange::Replace { chat_id: chat, mensa_id, hour, minute }],
{
    reveal_with_fuel(stored_all, 2);
    assert(plan@.changes.drop_last() == Seq::<DbChange>::empty());
    lemma_jobs_of_chat(registrations, jobs, chat);
}

/// An order that changes the canteen or the time leaves what it does not name as it was, registers and
/// writes down what it names, and leaves the chat with one job for its canteen and its time, or with
/// none if it has no time.
pub proof fn law_changing(
    backend: Backend,
    registrations: Map<i64, RegistrationEntry>,
    jobs: Map<Uuid, DailyJob>,
    table: Map<i64, RegistrationRow>,
    task: JobHandlerTask,
    plan: SchedulerPlan,
    fresh: Uuid,
    chat: i64,
)
    requires
        jobs_match(registrations, jobs),
        !jobs.dom().contains(fresh),
        task.job_type == JobType::UpdateRegistration,
        task.chat_id == Some(chat),
        task.mensa_id is Some || task.hour is Some || task.minute is Some,
        registrations.dom().contains(chat),
        table.dom().contains(chat),
        answers_order(backend, registrations, task, SchedulerStep::Carry(plan)),
    ensures
        ({
            let before = registrations[chat];
            let mensa_id = given_or(task.mensa_id, before.mensa_id);
            let hour = match task.hour {
                Some(_) => task.hour,
                None => before.hour,
            };
            let minute = match task.minute {
                Some(_) => task.minute,
                None => before.minute,
            };
            &&& registrations_after(registrations, plan@, fresh) == registrations.insert(
                chat,
                RegistrationEntry {
                    job_uuid: if hour is Some {
                        Some(fresh)
                    } else {
                        None
                    },
                    mensa_id,
                    hour,
                    minute,
                    callback_id: before.callback_id,
                },
            )
            &&& only_job_is(
                jobs,
                jobs_after(jobs, plan@, fresh),
                chat,
                fresh,
                if hour is Some {
                    Some(
                        DailyJob {
                            chat_id: chat,
                            mensa_id: mensa_id as u32,
                            hour: hour->0,
                            minute: minute->0,
                        },
                    )
                } else {
                    None
                },
            )
            &&& stored_all(table, plan@.changes) == table.insert(
                chat,
                RegistrationRow {
                    chat_id: table[chat].chat_id,
                    mensa_id: given_or(task.mensa_id, table[chat].mensa_id),
                    hour: match task.hour {
                        Some(_) => task.hour,
                        None => table[chat].hour,
                    },
                    minute: match task.minute {
                        Some(_) => task.minute,
                        None => table[chat].minute,
                    },
                    last_callback_id: match task.callback_id {
                        Some(_) => task.callback_id,
                        None => table[chat].last_callback_id,
                    },
                },
            )
        }),
{
    lemma_jobs_of_chat(registrations, jobs, chat);
    assert(job_fits(chat, registrations[chat], jobs));
    law_update_sets_given(table, task);
}

/// An order that names neither a canteen nor a time leaves registrations and jobs as they were.
pub proof fn law_changing_nothing(
    backend: Backend,
    registrations: Map<i64, RegistrationEntry>,
    jobs: Map<Uuid, DailyJob>,
    task: JobHandlerTask,
    plan: SchedulerPlan,
    fresh: Uuid,
    chat: i64,
)
    requires
        task.job_type == JobType::UpdateRegistration,
        task.chat_id == Some(chat),
        task.mensa_id is None && task.hour is None && task.minute is None,
        registrations.dom().contains(chat),
        answers_order(backend, registrations, task, SchedulerStep::Carry(plan)),
    ensures
        registrations_after(registrations, plan@, fresh) == registrations,
        jobs_after(jobs, plan@, fresh) == jobs,
{
    assert(registrations.insert(chat, registrations[chat]) == registrations);
}

/// Stopping the daily message of a chat leaves it registered for its canteen and with its buttons,
/// without a time and without a job, and writes that down.
pub proof fn law_stopping(
    backend: Backend,
    registrations: Map<i64, RegistrationEntry>,
    jobs: Map<Uuid, DailyJob>,
    table: Map<i64, RegistrationRow>,
    task: JobHandlerTask,
    plan: SchedulerPlan,
    fresh: Uuid,
    chat: i64,
)
    requires
        jobs_match(registrations, jobs),
        !jobs.dom().contains(fresh),
        task.job_type == JobType::Unregister,
        task.chat_id == Some(chat),
        registrations.dom().contains(chat),
        table.dom().contains(chat),
        answers_order(backend, registrations, task, SchedulerStep::Carry(plan)),
    ensures
        registrations_after(registrations, plan@, fresh) == registrations.insert(
            chat,
            RegistrationEntry {
                job_uuid: None,
                mensa_id: registrations[chat].mensa_id,
                hour: None,
                minute: None,
                callback_id: registrations[chat].callback_id,
            },
        ),
        only_job_is(jobs, jobs_after(jobs, plan@, fresh), chat, fresh, None),
        stored_all(table, plan@.changes) == table.insert(
            chat,
            RegistrationRow {
                chat_id: table[chat].chat_id,
                mensa_id: table[chat].mensa_id,
                hour: None,
                minute: None,
                last_callback_id: table[chat].last_callback_id,
            },
        ),
        plan@.changes == seq![DbChange::ClearTime { chat_id: chat }],
{
    reveal_with_fuel(stored_all, 2);
    assert(plan@.changes.drop_last() == Seq::<DbChange>::empty());
    lemma_jobs_of_chat(registrations, jobs, chat);
    assert(job_fits(chat, registrations[chat], jobs));
}

/// The message whose buttons are to be remembered takes the place of the one before. Nothing else
/// changes.
pub proof fn law_remembering(
    backend: Backend,
    registrations: Map<i64, RegistrationEntry>,
    jobs: Map<Uuid, DailyJob>,
    task: JobHandlerTask,
    plan: SchedulerPlan,
    fresh: Uuid,
    chat: i64,
)
    requires
        task.job_type == JobType::InsertCallbackMessageId,
        task.chat_id == Some(chat),
        registrations.dom().contains(chat),
        answers_order(backend, registrations, task, SchedulerStep::Carry(plan)),
    ensures
        registrations_after(registrations, plan@, fresh) == registrations.insert(
            chat,
            RegistrationEntry {
                job_uuid: registrations[chat].job_uuid,
                mensa_id: registrations[chat].mensa_id,
                hour: registrations[chat].hour,
                minute: registrations[chat].minute,
                callback_id: task.callback_id,
            },
        ),
        jobs_after(jobs, plan@, fresh) == jobs,
        plan@.changes.len() == 0,
{
}

/// The plan for an order, whatever is known of its chat: what the order names takes the place of what
/// was registered, the rest stays. If it names a canteen or a time, the chat's job goes, and one for the
/// new canteen and the new time comes if there is a time.
pub proof fn law_change_plan(
    backend: Backend,
    registrations: Map<i64, RegistrationEntry>,
    task: JobHandlerTask,
    plan: SchedulerPlan,
    chat: i64,
)
    requires
        task.job_type == JobType::UpdateRegistration,
        task.chat_id == Some(chat),
        registrations.dom().contains(chat),
        answers_order(backend, registrations, task, SchedulerStep::Carry(plan)),
    ensures
        ({
            let before = registrations[chat];
            let named = task.mensa_id is Some || task.hour is Some || task.minute is Some;
            &&& plan.chat_id == chat
            &&& plan.entry.mensa_id == given_or(task.mensa_id, before.mensa_id)
            &&& plan.entry.hour == (match task.hour {
                Some(_) => task.hour,
                None => before.hour,
            })
            &&& plan.entry.minute == (match task.minute {
                Some(_) => task.minute,
                None => before.minute,
            })
            &&& plan.entry.callback_id == before.callback_id
            &&& named ==> plan.entry.job_uuid is None && plan.unload == before.job_uuid
            &&& !named ==> plan.entry.job_uuid == before.job_uuid && plan.unload is None
                && plan.load is None
            &&& named && plan.entry.hour is None ==> plan.load is None
            &&& named && plan.entry.hour is Some ==> (plan.load matches Some(job) && {
                &&& job.chat_id == chat
                &&& job.mensa_id == plan.entry.mensa_id
                &&& job.hour == plan.entry.hour->0
                &&& plan.entry.minute is Some ==> job.minute == plan.entry.minute->0
            })
        }),
{
}

/// The plan for a chat that is entered or that stops, whatever is known of it: the job that it had
/// goes. The canteen of one that stops stays.
pub proof fn law_other_plans(
    backend: Backend,
    registrations: Map<i64, RegistrationEntry>,
    task: JobHandlerTask,
    plan: SchedulerPlan,
    chat: i64,
)
    requires
        task.job_type == JobType::Register || task.job_type == JobType::Unregister,
        task.job_type == JobType::Unregister ==> registrations.dom().contains(chat),
        task.chat_id == Some(chat),
        answers_order(backend, registrations, task, SchedulerStep::Carry(plan)),
    ensures
        plan.chat_id == chat,
        registrations.dom().contains(chat) ==> plan.unload == registrations[chat].job_uuid,
        !registrations.dom().contains(chat) ==> plan.unload is None,
        plan.entry.job_uuid is None,
        task.job_type == JobType::Unregister ==> plan.load is None && plan.entry.hour is None
            && plan.entry.minute is None && plan.entry.mensa_id == registrations[chat].mensa_id,
        task.job_type == JobType::Register && task.hour is Some && task.minute is Some
            && task.mensa_id is Some ==> plan.entry.hour == task.hour && plan.entry.minute
            == task.minute && Some(plan.entry.mensa_id) == task.mensa_id && plan.load == Some(
            DailyJob {
                chat_id: chat,
                mensa_id: task.mensa_id->0 as u32,
                hour: task.hour->0,
                minute: task.minute->0,
            },
        ),
{
}

/// What comes of an order: a plan to carry out where something is to change, a word to the chat where
/// it has not been entered, and an answer or a list of chats where nothing is to change.
pub proof fn law_steps(
    backend: Backend,
    registrations: Map<i64, RegistrationEntry>,
    task: JobHandlerTask,
    step: SchedulerStep,
    chat: i64,
)
    requires
        answers_order(backend, registrations, task, step),
        task.chat_id == Some(chat),
    ensures
        task.job_type == JobType::Register ==> step is Carry,
        task.job_type == JobType::Unregister ==> step is Carry,
        task.job_type == JobType::InsertCallbackMessageId ==> step is Carry,
        task.job_type == JobType::UpdateRegistration && registrations.dom().contains(chat)
            ==> step is Carry,
        task.job_type == JobType::UpdateRegistration && !registrations.dom().contains(chat) ==> (
        step matches SchedulerStep::Notify { chat_id, text } && chat_id == chat && text@
            == "Bitte zuerst /start ausführen"@),
        task.job_type == JobType::QueryRegistration ==> step == SchedulerStep::Answer(
            if registrations.dom().contains(chat) {
                Some(registrations[chat])
            } else {
                None
            },
        ),
        registrations.dom().contains(chat) ==> registration_of(registrations, chat) == Some(
            registrations[chat],
        ),
        !registrations.dom().contains(chat) ==> registration_of(registrations, chat) is None,
{
}

/// Whatever the clock shows, there is a time of day for each chat such that it hears of a changed plan
/// if and only if its daily message from the canteen was due before that. Each is told once, from the
/// smallest number to the largest. With the other service nobody is told.
pub proof fn law_told(
    backend: Backend,
    registrations: Map<i64, RegistrationEntry>,
    task: JobHandlerTask,
    mensa_id: u8,
    told: Vec<i64>,
)
    requires
        task.job_type == JobType::BroadcastUpdate,
        task.mensa_id == Some(mensa_id),
        answers_order(backend, registrations, task, SchedulerStep::Tell(told)),
        forall|chat: i64| #[trigger]
            registrations.dom().contains(chat) ==> (registrations[chat].minute matches Some(minute)
                ==> minute < 60),
    ensures
        backend == Backend::MensiMates ==> told@.len() == 0,
        backend == Backend::StuWe ==> exists|clock: Map<i64, (u32, u32)>|
            #![trigger shows_times(clock)]
            shows_times(clock) && forall|chat: i64| #[trigger]
                told@.contains(chat) <==> {
                    &&& registrations.dom().contains(chat)
                    &&& registrations[chat].mensa_id == mensa_id
                    &&& registrations[chat].hour is Some
                    &&& registrations[chat].minute is Some
                    &&& registrations[chat].hour->0 * 60 + registrations[chat].minute->0
                        < clock[chat].0 * 60 + clock[chat].1
                },
        forall|i: int, j: int|
            0 <= i < j < told@.len() ==> #[trigger] told@[i] < #[trigger] told@[j],
{
    if backend == Backend::StuWe {
        let entries = plain_entries(registrations);
        assert(times_of_day(entries));
        law_told_whenever(told@, entries, mensa_id as u32);
        let clock = choose|clock: Map<i64, (u32, u32)>|
            #![trigger shows_times(clock)]
            shows_times(clock) && forall|chat: i64| #[trigger]
                told@.contains(chat) <==> entries.dom().contains(chat) && hears(
                    entries[chat],
                    mensa_id as u32,
                    clock[chat],
                );
        assert(shows_times(clock));
    }
}

/// An order has one statement for each thing that it names, and none for what it does not name.
pub proof fn law_statements_of_order(task: JobHandlerTask, chat: i64, change: DbChange)
    requires
        task.chat_id == Some(chat),
    ensures
        row_updates(task).contains(change) <==> {
            ||| task.mensa_id is Some && change == (DbChange::SetMensa {
                chat_id: chat,
                mensa_id: task.mensa_id->0,
            })
            ||| task.hour is Some && change == (DbChange::SetHour {
                chat_id: chat,
                hour: task.hour->0,
            })
            ||| task.minute is Some && change == (DbChange::SetMinute {
                chat_id: chat,
                minute: task.minute->0,
            })
            ||| task.callback_id is Some && change == (DbChange::SetCallback {
                chat_id: chat,
                callback_id: task.callback_id->0,
            })
        },
{
    let a = match task.mensa_id {
        Some(mensa_id) => seq![DbChange::SetMensa { chat_id: chat, mensa_id }],
        None => seq![],
    };
    let b = match task.hour {
        Some(hour) => seq![DbChange::SetHour { chat_id: chat, hour }],
        None => seq![],
    };
    let c = match task.minute {
        Some(minute) => seq![DbChange::SetMinute { chat_id: chat, minute }],
        None => seq![],
    };
    let d = match task.callback_id {
        Some(callback_id) => seq![DbChange::SetCallback { chat_id: chat, callback_id }],
        None => seq![],
    };
    let all = row_updates(task);
    assert(all == a + b + c + d);
    if task.mensa_id is Some {
        assert(all[0] == a[0]);
    }
    if task.hour is Some {
        assert(all[a.len() as int] == b[0]);
    }
    if task.minute is Some {
        assert(all[(a.len() + b.len()) as int] == c[0]);
    }
    if task.callback_id is Some {
        assert(all[(a.len() + b.len() + c.len()) as int] == d[0]);
    }
}

/// Each statement changes the column that it is named after, in the row of the chat.
pub proof fn law_statement_texts(chat_id: i64, number: u32, small: u8, id: i32)
    ensures
        statement_text(DbChange::SetMensa { chat_id, mensa_id: small })
            == "UPDATE registrations SET "@ + "mensa_id"@ + " = ?2 WHERE chat_id = ?1"@,
        statement_text(DbChange::SetHour { chat_id, hour: number }) == "UPDATE registrations SET "@
            + "hour"@ + " = ?2 WHERE chat_id = ?1"@,
        statement_text(DbChange::SetMinute { chat_id, minute: number })
            == "UPDATE registrations SET "@ + "minute"@ + " = ?2 WHERE chat_id = ?1"@,
        statement_text(DbChange::SetCallback { chat_id, callback_id: id })
            == "UPDATE registrations SET "@ + "last_callback_id"@ + " = ?2 WHERE chat_id = ?1"@,
        statement_text(DbChange::ClearTime { chat_id }) == "UPDATE registrations SET "@
            + "hour = NULL, minute"@ + " = NULL WHERE chat_id = ?1"@,
        statement_text(
            DbChange::Replace { chat_id, mensa_id: small, hour: number, minute: number },
        ) == "replace into registrations "@ + "(chat_id, mensa_id, hour, minute)"@
            + " values (?1, ?2, ?3, ?4)"@,
{
    reveal_strlit("UPDATE registrations SET ");
    reveal_strlit("mensa_id");
    reveal_strlit("hour");
    reveal_strlit("minute");
    reveal_strlit("last_callback_id");
    reveal_strlit(" = ?2 WHERE chat_id = ?1");
    reveal_strlit("UPDATE registrations SET mensa_id = ?2 WHERE chat_id = ?1");
    reveal_strlit("UPDATE registrations SET hour = ?2 WHERE chat_id = ?1");
    reveal_strlit("UPDATE registrations SET minute = ?2 WHERE chat_id = ?1");
    reveal_strlit("UPDATE registrations SET last_callback_id = ?2 WHERE chat_id = ?1");
    reveal_strlit("UPDATE registrations SET hour = NULL, minute = NULL WHERE chat_id = ?1");
    reveal_strlit("hour = NULL, minute");
    reveal_strlit(" = NULL WHERE chat_id = ?1");
    reveal_strlit("replace into registrations ");
    reveal_strlit("(chat_id, mensa_id, hour, minute)");
    reveal_strlit(" values (?1, ?2, ?3, ?4)");
    reveal_strlit(
        "replace into registrations (chat_id, mensa_id, hour, minute) values (?1, ?2, ?3, ?4)",
    );
}

/// What the last row of a chat holds is what is registered after a restart, with the job that was loaded
/// for it and with the message that has buttons. Nothing is registered for a chat without a row.
pub proof fn law_row_is_restored(
    rows: Seq<RegistrationRow>,
    uuids: Seq<Option<Uuid>>,
    n: int,
    i: int,
    chat: i64,
)
    requires
        0 <= i < n <= rows.len(),
        uuids.len() == rows.len(),
        forall|j: int| i < j < n ==> (#[trigger] rows[j]).chat_id != rows[i].chat_id,
    ensures
        ({
            let tasks = rows.map_values(|row: RegistrationRow| restoring(row));
            let all = restored(tasks, uuids, n);
            &&& all.dom().contains(rows[i].chat_id)
            &&& all[rows[i].chat_id] == (RegistrationEntry {
                job_uuid: uuids[i],
                mensa_id: rows[i].mensa_id,
                hour: rows[i].hour,
                minute: rows[i].minute,
                callback_id: rows[i].last_callback_id,
            })
            &&& all.dom().contains(chat) ==> exists|k: int|
                0 <= k < n && (#[trigger] rows[k]).chat_id == chat
        }),
    decreases n,
{
    let tasks = rows.map_values(|row: RegistrationRow| restoring(row));
    assert(tasks[n - 1] == restoring(rows[n - 1]));
    if i < n - 1 {
        law_row_is_restored(rows, uuids, n - 1, i, chat);
        assert(rows[n - 1].chat_id != rows[i].chat_id);
        assert(rows[n - 1].chat_id == rows[n - 1].chat_id);
    } else {
        lemma_only_rows_are_restored(rows, uuids, n, chat);
    }
}

proof fn lemma_only_rows_are_restored(
    rows: Seq<RegistrationRow>,
    uuids: Seq<Option<Uuid>>,
    n: int,
    chat: i64,
)
    requires
        0 <= n <= rows.len(),
    ensures
        restored(rows.map_values(|row: RegistrationRow| restoring(row)), uuids, n).dom().contains(
            chat,
        ) ==> exists|k: int| 0 <= k < n && (#[trigger] rows[k]).chat_id == chat,
    decreases n,
{
    let tasks = rows.map_values(|row: RegistrationRow| restoring(row));
    if n > 0 {
        assert(tasks[n - 1] == restoring(rows[n - 1]));
        lemma_only_rows_are_restored(rows, uuids, n - 1, chat);
        assert(rows[n - 1].chat_id == rows[n - 1].chat_id);
    }
}

} // verus!
