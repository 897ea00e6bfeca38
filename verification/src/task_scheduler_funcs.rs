//! The task scheduler: what an order changes among the registrations, the daily jobs and the rows of
//! the database.
use crate::calendar::time_of_day_now;
use crate::campusdual_fetcher::{
    compare_campusdual_grades, compare_campusdual_signup_options, grade_rows, grade_views,
    grades_message, known_grades, known_signups, reported, save_campusdual_grades,
    save_campusdual_signup_options, signup_options_message, signup_rows, signup_views,
    stored_after_comparing, stored_after_sending, GradeView, SignupView,
};
use crate::constants::NO_DB_MSG;
use crate::data_types::{
    Backend, CampusDualGrade, CampusDualSignupOption, JobHandlerTask, JobType, RegistrationEntry,
};
use crate::db_operations::{
    fills_row, init_db_record, law_update_sets_given, restoring, row_updates, stored, stored_all, task_db_kill_auto,
    update_db_row, DbChange, RegistrationRow,
};
use crate::markdown::{bold, bold_text, is_special, underline, underline_text, well_escaped};
use crate::ordered::{ascending_i64, keys_i64};
use crate::shared_main::{
    get_user_registration, insert_user_registration, job_complete, job_of, registration_of,
    DailyJob,
};
use crate::text::{digits_value, is_unsigned, owned, parse_u32, unsigned_digits};
use std::collections::BTreeMap;
use uuid::Uuid;
use vstd::prelude::*;
use vstd::string::StringExecFns;

verus! {

// ---------------------------------------------------------------------------------------------
// Plans
// ---------------------------------------------------------------------------------------------

/// What is done to carry out an order: first the job that is no longer wanted is unloaded, then a
/// new one is loaded, then the registration of the chat is set, and the statements are executed.
#[derive(Debug, PartialEq)]
pub struct SchedulerPlan {
    pub chat_id: i64,
    /// The job to unload.
    pub unload: Option<Uuid>,
    /// The job to load.
    pub load: Option<DailyJob>,
    /// What is registered for the chat from now on. If a job is loaded, it is the job of the chat;
    /// else it is the one that is named here.
    pub entry: RegistrationEntry,
    /// What is executed on the database.
    pub changes: Vec<DbChange>,
}

/// A plan, with its statements as a sequence.
#[verifier::ext_equal]
pub ghost struct PlanView {
    pub chat_id: i64,
    pub unload: Option<Uuid>,
    pub load: Option<DailyJob>,
    pub entry: RegistrationEntry,
    pub changes: Seq<DbChange>,
}

impl View for SchedulerPlan {
    type V = PlanView;

    open spec fn view(&self) -> PlanView {
        PlanView {
            chat_id: self.chat_id,
            unload: self.unload,
            load: self.load,
            entry: self.entry,
            changes: self.changes@,
        }
    }
}

/// The job of a registration, if there is one.
pub open spec fn job_uuid_of(registration: Option<RegistrationEntry>) -> Option<Uuid> {
    match registration {
        Some(entry) => entry.job_uuid,
        None => None,
    }
}

/// What it takes to enter a chat: its row is written anew, and its job takes the place of the one
/// that it had.
pub open spec fn adding(
    registrations: Map<i64, RegistrationEntry>,
    task: JobHandlerTask,
) -> PlanView {
    let chat_id = task.chat_id->0;
    PlanView {
        chat_id,
        unload: job_uuid_of(registration_of(registrations, chat_id)),
        load: job_of(task.chat_id, task.mensa_id, task.hour, task.minute),
        entry: RegistrationEntry {
            job_uuid: None,
            mensa_id: task.mensa_id->0,
            hour: task.hour,
            minute: task.minute,
        },
        changes: seq![
            DbChange::Replace(
                RegistrationRow {
                    chat_id,
                    mensa_id: task.mensa_id->0,
                    hour: task.hour,
                    minute: task.minute,
                },
            ),
        ],
    }
}

/// Plans to enter a chat.
pub fn handle_add_registration_task(
    registrations: &BTreeMap<i64, RegistrationEntry>,
    job_handler_task: &JobHandlerTask,
) -> (r: SchedulerPlan)
    requires
        fills_row(*job_handler_task),
    ensures
        r@ == adding(registrations@, *job_handler_task),
{
    let chat_id: i64 = job_handler_task.chat_id.unwrap();
    let mensa_id: u32 = job_handler_task.mensa_id.unwrap();
    let unload = match get_user_registration(registrations, chat_id) {
        Some(registration) => registration.job_uuid,
        None => None,
    };
    let changes = vec![init_db_record(job_handler_task)];
    assert(changes@ == adding(registrations@, *job_handler_task).changes);
    SchedulerPlan {
        chat_id,
        unload,
        load: Some(
            DailyJob {
                chat_id,
                mensa_id,
                hour: job_handler_task.hour.unwrap(),
                minute: job_handler_task.minute.unwrap(),
            },
        ),
        entry: RegistrationEntry {
            job_uuid: None,
            mensa_id,
            hour: job_handler_task.hour,
            minute: job_handler_task.minute,
        },
        changes,
    }
}

/// A new value where there is one, else the old one.
pub open spec fn or_else<T>(new: Option<T>, old_value: Option<T>) -> Option<T> {
    if new is Some {
        new
    } else {
        old_value
    }
}

/// Whether an order changes anything that a job depends on.
pub open spec fn changes_job(task: JobHandlerTask) -> bool {
    task.hour is Some || task.minute is Some || task.mensa_id is Some
}

/// What it takes to change what is registered for a chat: what the order leaves open stays as it
/// is, and if it leaves not all open, a new job takes the place of the old one.
pub open spec fn updating(registration: RegistrationEntry, task: JobHandlerTask) -> PlanView {
    let mensa_id = or_else(task.mensa_id, Some(registration.mensa_id));
    let hour = or_else(task.hour, registration.hour);
    let minute = or_else(task.minute, registration.minute);
    PlanView {
        chat_id: task.chat_id->0,
        unload: if changes_job(task) {
            registration.job_uuid
        } else {
            None
        },
        load: if changes_job(task) {
            job_of(task.chat_id, mensa_id, hour, minute)
        } else {
            None
        },
        entry: RegistrationEntry {
            job_uuid: if changes_job(task) {
                None
            } else {
                registration.job_uuid
            },
            mensa_id: mensa_id->0,
            hour,
            minute,
        },
        changes: row_updates(task.chat_id, task.mensa_id, task.hour, task.minute),
    }
}

/// Whether the registration of a chat can be changed by an order: the order names the chat, an hour
/// comes with a minute, and the job that would be loaded is complete.
pub open spec fn updatable(registration: Option<RegistrationEntry>, task: JobHandlerTask) -> bool {
    &&& task.chat_id is Some
    &&& task.hour is Some ==> task.minute is Some
    &&& registration matches Some(registration) ==> changes_job(task) ==> job_complete(
        task.chat_id,
        or_else(task.mensa_id, Some(registration.mensa_id)),
        or_else(task.hour, registration.hour),
        or_else(task.minute, registration.minute),
    )
}

/// Plans to change what is registered for a chat. There is nothing to change for a chat that has
/// not been entered.
pub fn handle_update_registration_task(
    registrations: &BTreeMap<i64, RegistrationEntry>,
    job_handler_task: &JobHandlerTask,
) -> (r: Option<SchedulerPlan>)
    requires
        updatable(
            registration_of(registrations@, job_handler_task.chat_id->0),
            *job_handler_task,
        ),
    ensures
        match registration_of(registrations@, job_handler_task.chat_id->0) {
            Some(registration) => {
                &&& r matches Some(plan)
                &&& plan@ == updating(registration, *job_handler_task)
            },
            None => r is None,
        },
{
    let chat_id: i64 = job_handler_task.chat_id.unwrap();
    match get_user_registration(registrations, chat_id) {
        None => None,
        Some(registration) => {
            let mensa_id: u32 = match job_handler_task.mensa_id {
                Some(mensa_id) => mensa_id,
                None => registration.mensa_id,
            };
            let hour = match job_handler_task.hour {
                Some(hour) => Some(hour),
                None => registration.hour,
            };
            let minute = match job_handler_task.minute {
                Some(minute) => Some(minute),
                None => registration.minute,
            };
            let reload = job_handler_task.hour.is_some() || job_handler_task.minute.is_some()
                || job_handler_task.mensa_id.is_some();
            let load = if reload {
                match hour {
                    Some(hour) => Some(
                        DailyJob { chat_id, mensa_id, hour, minute: minute.unwrap() },
                    ),
                    None => None,
                }
            } else {
                None
            };
            Some(
                SchedulerPlan {
                    chat_id,
                    unload: if reload {
                        registration.job_uuid
                    } else {
                        None
                    },
                    load,
                    entry: RegistrationEntry {
                        job_uuid: if reload {
                            None
                        } else {
                            registration.job_uuid
                        },
                        mensa_id,
                        hour,
                        minute,
                    },
                    changes: update_db_row(job_handler_task),
                },
            )
        },
    }
}

/// What it takes to stop the daily message of a chat: its job and its time go, its canteen stays.
pub open spec fn deleting(registration: RegistrationEntry, task: JobHandlerTask) -> PlanView {
    let chat_id = task.chat_id->0;
    PlanView {
        chat_id,
        unload: registration.job_uuid,
        load: None,
        entry: RegistrationEntry {
            job_uuid: None,
            mensa_id: registration.mensa_id,
            hour: None,
            minute: None,
        },
        changes: seq![DbChange::ClearTime { chat_id }],
    }
}

/// Whether there is a daily message to stop.
pub open spec fn deletable(
    registrations: Map<i64, RegistrationEntry>,
    task: JobHandlerTask,
) -> bool {
    task.chat_id is Some && job_uuid_of(registration_of(registrations, task.chat_id->0)) is Some
}

/// Plans to stop the daily message of a chat.
pub fn handle_delete_registration_task(
    registrations: &BTreeMap<i64, RegistrationEntry>,
    job_handler_task: &JobHandlerTask,
) -> (r: SchedulerPlan)
    requires
        deletable(registrations@, *job_handler_task),
    ensures
        r@ == deleting(registrations@[job_handler_task.chat_id->0], *job_handler_task),
{
    let chat_id: i64 = job_handler_task.chat_id.unwrap();
    let registration = get_user_registration(registrations, chat_id).unwrap();
    let changes = vec![task_db_kill_auto(chat_id)];
    assert(changes@ == deleting(registration, *job_handler_task).changes);
    SchedulerPlan {
        chat_id,
        unload: registration.job_uuid,
        load: None,
        entry: RegistrationEntry {
            job_uuid: None,
            mensa_id: registration.mensa_id,
            hour: None,
            minute: None,
        },
        changes,
    }
}

/// What is registered once the job of a plan is loaded, if it has one.
pub open spec fn settled(plan: PlanView, loaded: Option<Uuid>) -> RegistrationEntry {
    RegistrationEntry { job_uuid: or_else(loaded, plan.entry.job_uuid), ..plan.entry }
}

/// Sets the registration of a plan's chat, once its job is loaded.
pub fn settle(
    registrations: &mut BTreeMap<i64, RegistrationEntry>,
    plan: &SchedulerPlan,
    loaded: Option<Uuid>,
)
    ensures
        final(registrations)@ == old(registrations)@.insert(plan.chat_id, settled(plan@, loaded)),
{
    let job_uuid = match loaded {
        Some(uuid) => Some(uuid),
        None => plan.entry.job_uuid,
    };
    insert_user_registration(
        registrations,
        plan.chat_id,
        RegistrationEntry {
            job_uuid,
            mensa_id: plan.entry.mensa_id,
            hour: plan.entry.hour,
            minute: plan.entry.minute,
        },
    );
}

// ---------------------------------------------------------------------------------------------
// What every order keeps
// ---------------------------------------------------------------------------------------------

/// All that the task scheduler looks after: what is registered, which jobs are loaded, and the table
/// of registrations.
#[verifier::ext_equal]
pub ghost struct World {
    pub registrations: Map<i64, RegistrationEntry>,
    pub jobs: Map<Uuid, DailyJob>,
    pub table: Map<i64, RegistrationRow>,
}

/// All of it after a plan has been carried out. If the plan loads a job, it is called `fresh`.
pub open spec fn performed(world: World, plan: PlanView, fresh: Uuid) -> World {
    let kept = match plan.unload {
        Some(uuid) => world.jobs.remove(uuid),
        None => world.jobs,
    };
    let loaded = if plan.load is Some {
        Some(fresh)
    } else {
        None
    };
    World {
        registrations: world.registrations.insert(plan.chat_id, settled(plan, loaded)),
        jobs: match plan.load {
            Some(job) => kept.insert(fresh, job),
            None => kept,
        },
        table: stored_all(world.table, plan.changes),
    }
}

/// Whether what is known of a chat fits together: its row says what is registered, and it has a job
/// if and only if it has a time, which is a time of day and the one at which the job runs.
pub open spec fn fits(
    chat: i64,
    entry: RegistrationEntry,
    row: RegistrationRow,
    jobs: Map<Uuid, DailyJob>,
) -> bool {
    &&& row == RegistrationRow {
        chat_id: chat,
        mensa_id: entry.mensa_id,
        hour: entry.hour,
        minute: entry.minute,
    }
    &&& entry.job_uuid is Some <==> entry.hour is Some
    &&& entry.minute is Some <==> entry.hour is Some
    &&& entry.hour is Some ==> entry.hour->0 < 24 && entry.minute->0 < 60
    &&& entry.job_uuid matches Some(uuid) ==> jobs.dom().contains(uuid) && jobs[uuid] == DailyJob {
        chat_id: chat,
        mensa_id: entry.mensa_id,
        hour: entry.hour->0,
        minute: entry.minute->0,
    }
}

/// Whether everything fits together: the chats that are registered are those that have a row, what
/// is known of each of them fits, and every job that is loaded is the job of its chat.
pub open spec fn consistent(world: World) -> bool {
    &&& forall|chat: i64|
        #[trigger] world.registrations.dom().contains(chat) <==> world.table.dom().contains(chat)
    &&& forall|chat: i64| #[trigger]
        world.registrations.dom().contains(chat) ==> fits(
            chat,
            world.registrations[chat],
            world.table[chat],
            world.jobs,
        )
    &&& forall|uuid: Uuid| #[trigger]
        world.jobs.dom().contains(uuid) ==> job_uuid_of(
            registration_of(world.registrations, world.jobs[uuid].chat_id),
        ) == Some(uuid)
}

/// Whether the time that an order gives is a whole time of day, if it gives any.
pub open spec fn whole_time(task: JobHandlerTask) -> bool {
    &&& task.hour is Some <==> task.minute is Some
    &&& task.hour is Some ==> task.hour->0 < 24 && task.minute->0 < 60
}

/// Nothing is registered and nothing is loaded at the beginning, which fits together.
pub proof fn law_empty_consistent()
    ensures
        consistent(
            World { registrations: Map::empty(), jobs: Map::empty(), table: Map::empty() },
        ),
{
}

proof fn lemma_one_change(table: Map<i64, RegistrationRow>, change: DbChange)
    ensures
        stored_all(table, seq![change]) == stored(table, change),
{
    assert(seq![change].drop_last() == Seq::<DbChange>::empty());
    assert(stored_all(table, Seq::<DbChange>::empty()) == table);
}

/// Entering a chat keeps everything fitting together: its old job is unloaded, its new job is the
/// only one that it has, and the row says what is registered.
pub proof fn law_add_keeps_consistent(world: World, task: JobHandlerTask, fresh: Uuid)
    requires
        consistent(world),
        !world.jobs.dom().contains(fresh),
        fills_row(task),
        whole_time(task),
    ensures
        consistent(performed(world, adding(world.registrations, task), fresh)),
{
    let plan = adding(world.registrations, task);
    lemma_one_change(world.table, plan.changes[0]);
    assert(plan.changes == seq![plan.changes[0]]);
    lemma_performed(world, plan, fresh);
}

/// Changing what is registered for a chat keeps everything fitting together.
pub proof fn law_update_keeps_consistent(world: World, task: JobHandlerTask, fresh: Uuid)
    requires
        consistent(world),
        !world.jobs.dom().contains(fresh),
        task.chat_id is Some,
        whole_time(task),
        world.registrations.dom().contains(task.chat_id->0),
    ensures
        updatable(Some(world.registrations[task.chat_id->0]), task),
        consistent(
            performed(world, updating(world.registrations[task.chat_id->0], task), fresh),
        ),
{
    let chat = task.chat_id->0;
    let plan = updating(world.registrations[chat], task);
    assert(fits(chat, world.registrations[chat], world.table[chat], world.jobs));
    law_update_sets_given(world.table, chat, task.mensa_id, task.hour, task.minute);
    lemma_performed(world, plan, fresh);
}

/// Stopping the daily message of a chat keeps everything fitting together.
pub proof fn law_delete_keeps_consistent(world: World, task: JobHandlerTask, fresh: Uuid)
    requires
        consistent(world),
        deletable(world.registrations, task),
    ensures
        consistent(
            performed(world, deleting(world.registrations[task.chat_id->0], task), fresh),
        ),
{
    let chat = task.chat_id->0;
    let plan = deleting(world.registrations[chat], task);
    assert(fits(chat, world.registrations[chat], world.table[chat], world.jobs));
    lemma_one_change(world.table, plan.changes[0]);
    assert(plan.changes == seq![plan.changes[0]]);
    lemma_performed(world, plan, fresh);
}

/// A plan keeps everything fitting together if it ends in a registration that fits its row and its
/// job, and unloads the job that the chat had unless it stays.
proof fn lemma_performed(world: World, plan: PlanView, fresh: Uuid)
    requires
        consistent(world),
        plan.load is Some ==> !world.jobs.dom().contains(fresh),
        ({
            let after = performed(world, plan, fresh);
            let chat = plan.chat_id;
            let before = job_uuid_of(registration_of(world.registrations, chat));
            &&& after.table == world.table.insert(chat, after.table[chat])
            &&& fits(chat, after.registrations[chat], after.table[chat], after.jobs)
            &&& plan.load matches Some(job) ==> job.chat_id == chat && plan.unload == before
            &&& plan.unload == before || (plan.unload is None && plan.load is None
                && plan.entry.job_uuid == before)
        }),
    ensures
        consistent(performed(world, plan, fresh)),
{
    let after = performed(world, plan, fresh);
    let chat = plan.chat_id;
    assert forall|c: i64| #[trigger] after.registrations.dom().contains(c) implies fits(
        c,
        after.registrations[c],
        after.table[c],
        after.jobs,
    ) by {
        if c != chat {
            assert(world.registrations.dom().contains(c));
            let entry = world.registrations[c];
            assert(fits(c, entry, world.table[c], world.jobs));
            if let Some(uuid) = entry.job_uuid {
                if plan.unload == Some(uuid) {
                    assert(world.registrations.dom().contains(chat));
                    assert(fits(chat, world.registrations[chat], world.table[chat], world.jobs));
                    assert(false);
                }
            }
        }
    }
    assert forall|uuid: Uuid| #[trigger] after.jobs.dom().contains(uuid) implies job_uuid_of(
        registration_of(after.registrations, after.jobs[uuid].chat_id),
    ) == Some(uuid) by {
        if plan.load is Some && uuid == fresh {
        } else {
            assert(world.jobs.dom().contains(uuid));
        }
    }
}

/// Whether nothing that belongs to a chat other than `chat` differs between two states.
pub open spec fn others_untouched(before: World, after: World, chat: i64) -> bool {
    &&& forall|c: i64|
        #![trigger registration_of(after.registrations, c)]
        c != chat ==> registration_of(after.registrations, c) == registration_of(
            before.registrations,
            c,
        )
    &&& after.table.remove(chat) == before.table.remove(chat)
    &&& forall|uuid: Uuid| #[trigger]
        before.jobs.dom().contains(uuid) && before.jobs[uuid].chat_id != chat
            ==> after.jobs.dom().contains(uuid) && after.jobs[uuid] == before.jobs[uuid]
}

proof fn lemma_others(world: World, plan: PlanView, fresh: Uuid)
    requires
        consistent(world),
        plan.load is Some ==> !world.jobs.dom().contains(fresh),
        plan.unload matches Some(uuid) ==> job_uuid_of(
            registration_of(world.registrations, plan.chat_id),
        ) == Some(uuid),
        stored_all(world.table, plan.changes).remove(plan.chat_id) == world.table.remove(
            plan.chat_id,
        ),
    ensures
        others_untouched(world, performed(world, plan, fresh), plan.chat_id),
{
    let after = performed(world, plan, fresh);
    assert forall|uuid: Uuid| #[trigger]
        world.jobs.dom().contains(uuid) && world.jobs[uuid].chat_id
            != plan.chat_id implies after.jobs.dom().contains(uuid) && after.jobs[uuid]
        == world.jobs[uuid] by {
        if plan.unload == Some(uuid) {
            assert(world.registrations.dom().contains(plan.chat_id));
            assert(fits(
                plan.chat_id,
                world.registrations[plan.chat_id],
                world.table[plan.chat_id],
                world.jobs,
            ));
        }
    }
}

/// Whatever is done for one chat leaves all others as they are: what is registered for them, their
/// rows, and their jobs.
pub proof fn law_others_untouched(world: World, task: JobHandlerTask, fresh: Uuid)
    requires
        consistent(world),
        !world.jobs.dom().contains(fresh),
        task.chat_id is Some,
    ensures
        others_untouched(
            world,
            performed(world, adding(world.registrations, task), fresh),
            task.chat_id->0,
        ),
        world.registrations.dom().contains(task.chat_id->0) ==> others_untouched(
            world,
            performed(world, updating(world.registrations[task.chat_id->0], task), fresh),
            task.chat_id->0,
        ) && others_untouched(
            world,
            performed(world, deleting(world.registrations[task.chat_id->0], task), fresh),
            task.chat_id->0,
        ),
{
    let chat = task.chat_id->0;
    let add = adding(world.registrations, task);
    lemma_one_change(world.table, add.changes[0]);
    assert(add.changes == seq![add.changes[0]]);
    assert(stored_all(world.table, add.changes).remove(chat) == world.table.remove(chat));
    lemma_others(world, add, fresh);
    if world.registrations.dom().contains(chat) {
        let entry = world.registrations[chat];
        let update = updating(entry, task);
        law_update_sets_given(world.table, chat, task.mensa_id, task.hour, task.minute);
        assert(stored_all(world.table, update.changes).remove(chat) == world.table.remove(chat));
        lemma_others(world, update, fresh);
        let delete = deleting(entry, task);
        lemma_one_change(world.table, delete.changes[0]);
        assert(delete.changes == seq![delete.changes[0]]);
        assert(stored_all(world.table, delete.changes).remove(chat) == world.table.remove(chat));
        lemma_others(world, delete, fresh);
    }
}

/// No chat has two jobs.
pub proof fn law_one_job_per_chat(world: World, a: Uuid, b: Uuid)
    requires
        consistent(world),
        world.jobs.dom().contains(a),
        world.jobs.dom().contains(b),
        world.jobs[a].chat_id == world.jobs[b].chat_id,
    ensures
        a == b,
{
}

/// Once its daily message is stopped, no job is left that would send one to the chat.
pub proof fn law_stopped_is_silent(world: World, task: JobHandlerTask, fresh: Uuid)
    requires
        consistent(world),
        deletable(world.registrations, task),
    ensures
        ({
            let after = performed(
                world,
                deleting(world.registrations[task.chat_id->0], task),
                fresh,
            );
            forall|uuid: Uuid| #[trigger]
                after.jobs.dom().contains(uuid) ==> after.jobs[uuid].chat_id != task.chat_id->0
        }),
{
    law_delete_keeps_consistent(world, task, fresh);
}

/// To stop the daily message of a chat and then to order it for the same time restores all but the
/// name of the job.
pub proof fn law_stop_and_resume(
    world: World,
    stop: JobHandlerTask,
    resume: JobHandlerTask,
    fresh: Uuid,
)
    requires
        consistent(world),
        !world.jobs.dom().contains(fresh),
        deletable(world.registrations, stop),
        resume.chat_id == stop.chat_id,
        resume.mensa_id is None,
        resume.hour == world.registrations[stop.chat_id->0].hour,
        resume.minute == world.registrations[stop.chat_id->0].minute,
    ensures
        ({
            let chat = stop.chat_id->0;
            let before = world.registrations[chat];
            let stopped = performed(world, deleting(before, stop), fresh);
            let resumed = performed(
                stopped,
                updating(stopped.registrations[chat], resume),
                fresh,
            );
            &&& resumed.registrations == world.registrations.insert(
                chat,
                RegistrationEntry { job_uuid: Some(fresh), ..before },
            )
            &&& resumed.table == world.table
            &&& resumed.jobs == world.jobs.remove(before.job_uuid->0).insert(
                fresh,
                world.jobs[before.job_uuid->0],
            )
        }),
{
    let chat = stop.chat_id->0;
    let before = world.registrations[chat];
    assert(fits(chat, before, world.table[chat], world.jobs));
    let delete = deleting(before, stop);
    lemma_one_change(world.table, delete.changes[0]);
    assert(delete.changes == seq![delete.changes[0]]);
    let stopped = performed(world, delete, fresh);
    law_update_sets_given(stopped.table, chat, resume.mensa_id, resume.hour, resume.minute);
    let resumed = performed(stopped, updating(stopped.registrations[chat], resume), fresh);
    assert(resumed.registrations == world.registrations.insert(
        chat,
        RegistrationEntry { job_uuid: Some(fresh), ..before },
    ));
    assert(resumed.table == world.table);
}

// ---------------------------------------------------------------------------------------------
// After a restart
// ---------------------------------------------------------------------------------------------

/// What is registered once the orders that restore the table have been carried out, as far as the
/// first `n` of them.
pub open spec fn restored(
    tasks: Seq<JobHandlerTask>,
    uuids: Seq<Option<Uuid>>,
    n: int,
) -> Map<i64, RegistrationEntry>
    decreases n,
{
    if n <= 0 {
        Map::empty()
    } else {
        let task = tasks[n - 1];
        restored(tasks, uuids, n - 1).insert(
            task.chat_id->0,
            RegistrationEntry {
                job_uuid: uuids[n - 1],
                mensa_id: task.mensa_id->0,
                hour: task.hour,
                minute: task.minute,
            },
        )
    }
}

/// Whether all of the orders name a chat and a canteen.
pub open spec fn all_named(tasks: Seq<JobHandlerTask>) -> bool {
    forall|i: int|
        0 <= i < tasks.len() ==> (#[trigger] tasks[i]).chat_id is Some && tasks[i].mensa_id is Some
}

/// Registers what the table holds, with the job that was loaded for each of its rows.
pub fn load_jobs_from_db(tasks: &Vec<JobHandlerTask>, uuids: &Vec<Option<Uuid>>) -> (r: BTreeMap<
    i64,
    RegistrationEntry,
>)
    requires
        all_named(tasks@),
        tasks@.len() == uuids@.len(),
    ensures
        r@ == restored(tasks@, uuids@, tasks@.len() as int),
{
    let mut loaded: BTreeMap<i64, RegistrationEntry> = BTreeMap::new();
    for i in 0..tasks.len()
        invariant
            all_named(tasks@),
            tasks@.len() == uuids@.len(),
            loaded@ == restored(tasks@, uuids@, i as int),
    {
        let task = &tasks[i];
        insert_user_registration(
            &mut loaded,
            task.chat_id.unwrap(),
            RegistrationEntry {
                job_uuid: uuids[i],
                mensa_id: task.mensa_id.unwrap(),
                hour: task.hour,
                minute: task.minute,
            },
        );
    }
    loaded
}

/// Whether `rows` are the rows of the table, each once.
pub open spec fn lists_table(rows: Seq<RegistrationRow>, table: Map<i64, RegistrationRow>) -> bool {
    &&& forall|i: int|
        0 <= i < rows.len() ==> table.dom().contains((#[trigger] rows[i]).chat_id)
            && table[rows[i].chat_id] == rows[i]
    &&& forall|i: int, j: int|
        0 <= i < j < rows.len() ==> (#[trigger] rows[i]).chat_id != (#[trigger] rows[j]).chat_id
    &&& forall|chat: i64| #[trigger]
        table.dom().contains(chat) ==> rows.contains(table[chat])
}

/// The orders that restore some rows.
pub open spec fn restoring_all(rows: Seq<RegistrationRow>) -> Seq<JobHandlerTask> {
    rows.map_values(|row: RegistrationRow| restoring(row))
}

proof fn lemma_restored(rows: Seq<RegistrationRow>, uuids: Seq<Option<Uuid>>, n: int)
    requires
        0 <= n <= rows.len(),
        forall|i: int, j: int|
            0 <= i < j < rows.len() ==> (#[trigger] rows[i]).chat_id != (#[trigger] rows[j]).chat_id,
    ensures
        ({
            let loaded = restored(restoring_all(rows), uuids, n);
            &&& forall|i: int|
                0 <= i < n ==> loaded.dom().contains((#[trigger] rows[i]).chat_id)
                    && loaded[rows[i].chat_id] == RegistrationEntry {
                    job_uuid: uuids[i],
                    mensa_id: rows[i].mensa_id,
                    hour: rows[i].hour,
                    minute: rows[i].minute,
                }
            &&& forall|chat: i64| #[trigger]
                loaded.dom().contains(chat) ==> exists|i: int|
                    0 <= i < n && (#[trigger] rows[i]).chat_id == chat
        }),
    decreases n,
{
    if n > 0 {
        lemma_restored(rows, uuids, n - 1);
        let before = restored(restoring_all(rows), uuids, n - 1);
        let loaded = restored(restoring_all(rows), uuids, n);
        assert(restoring_all(rows)[n - 1] == restoring(rows[n - 1]));
        assert forall|chat: i64| #[trigger] loaded.dom().contains(chat) implies exists|i: int|
            0 <= i < n && (#[trigger] rows[i]).chat_id == chat by {
            if chat == rows[n - 1].chat_id {
            } else {
                assert(before.dom().contains(chat));
            }
        }
    }
}

/// A restart loses nothing: what is registered when the table is read back is what was registered,
/// but for the names of the jobs.
pub proof fn law_restart_restores(
    world: World,
    rows: Seq<RegistrationRow>,
    uuids: Seq<Option<Uuid>>,
)
    requires
        consistent(world),
        lists_table(rows, world.table),
        uuids.len() == rows.len(),
    ensures
        ({
            let loaded = restored(restoring_all(rows), uuids, rows.len() as int);
            &&& loaded.dom() == world.registrations.dom()
            &&& forall|chat: i64| #[trigger]
                loaded.dom().contains(chat) ==> loaded[chat] == (RegistrationEntry {
                    job_uuid: loaded[chat].job_uuid,
                    ..world.registrations[chat]
                })
        }),
{
    lemma_restored(rows, uuids, rows.len() as int);
    let loaded = restored(restoring_all(rows), uuids, rows.len() as int);
    assert forall|chat: i64| #[trigger]
        loaded.dom().contains(chat) implies world.registrations.dom().contains(chat)
        && loaded[chat] == (RegistrationEntry {
        job_uuid: loaded[chat].job_uuid,
        ..world.registrations[chat]
    }) by {
        let i = choose|i: int| 0 <= i < rows.len() && (#[trigger] rows[i]).chat_id == chat;
        assert(world.table.dom().contains(rows[i].chat_id));
        assert(world.registrations.dom().contains(chat));
        assert(fits(chat, world.registrations[chat], world.table[chat], world.jobs));
    }
    assert forall|chat: i64| #[trigger] world.registrations.dom().contains(chat) implies
        loaded.dom().contains(chat) by {
        assert(world.table.dom().contains(chat));
        assert(fits(chat, world.registrations[chat], world.table[chat], world.jobs));
        let i = choose|i: int| 0 <= i < rows.len() && rows[i] == world.table[chat];
        assert(rows[i].chat_id == chat);
    }
    assert(loaded.dom() =~= world.registrations.dom());
}

/// The jobs that are loaded for the first `n` rows.
pub open spec fn restored_jobs(
    rows: Seq<RegistrationRow>,
    uuids: Seq<Option<Uuid>>,
    n: int,
) -> Map<Uuid, DailyJob>
    decreases n,
{
    if n <= 0 {
        Map::empty()
    } else {
        let row = rows[n - 1];
        let before = restored_jobs(rows, uuids, n - 1);
        match job_of(Some(row.chat_id), Some(row.mensa_id), row.hour, row.minute) {
            Some(job) => before.insert(uuids[n - 1]->0, job),
            None => before,
        }
    }
}

/// Whether every row with a time, and no other, got a job of its own.
pub open spec fn jobs_loaded(rows: Seq<RegistrationRow>, uuids: Seq<Option<Uuid>>) -> bool {
    &&& uuids.len() == rows.len()
    &&& forall|i: int|
        0 <= i < rows.len() ==> ((#[trigger] rows[i]).hour is Some <==> uuids[i] is Some)
    &&& forall|i: int, j: int|
        0 <= i < j < uuids.len() && (#[trigger] uuids[i]) is Some ==> uuids[i]
            != #[trigger] uuids[j]
}

proof fn lemma_restored_jobs(rows: Seq<RegistrationRow>, uuids: Seq<Option<Uuid>>, n: int)
    requires
        0 <= n <= rows.len(),
        jobs_loaded(rows, uuids),
    ensures
        ({
            let jobs = restored_jobs(rows, uuids, n);
            &&& forall|i: int|
                0 <= i < n && (#[trigger] rows[i]).hour is Some ==> jobs.dom().contains(
                    uuids[i]->0,
                ) && jobs[uuids[i]->0] == DailyJob {
                    chat_id: rows[i].chat_id,
                    mensa_id: rows[i].mensa_id,
                    hour: rows[i].hour->0,
                    minute: rows[i].minute->0,
                }
            &&& forall|uuid: Uuid| #[trigger]
                jobs.dom().contains(uuid) ==> exists|i: int|
                    0 <= i < n && (#[trigger] rows[i]).hour is Some && uuids[i] == Some(uuid)
        }),
    decreases n,
{
    if n > 0 {
        lemma_restored_jobs(rows, uuids, n - 1);
        let before = restored_jobs(rows, uuids, n - 1);
        let jobs = restored_jobs(rows, uuids, n);
        assert forall|i: int| 0 <= i < n && (#[trigger] rows[i]).hour is Some implies
            jobs.dom().contains(uuids[i]->0) && jobs[uuids[i]->0] == (DailyJob {
            chat_id: rows[i].chat_id,
            mensa_id: rows[i].mensa_id,
            hour: rows[i].hour->0,
            minute: rows[i].minute->0,
        }) by {
            if i < n - 1 {
                assert(uuids[i] != uuids[n - 1]);
                assert(uuids[i] is Some);
            }
        }
        assert forall|uuid: Uuid| #[trigger] jobs.dom().contains(uuid) implies exists|i: int|
            0 <= i < n && (#[trigger] rows[i]).hour is Some && uuids[i] == Some(uuid) by {
            if before.dom().contains(uuid) {
            } else {
                assert(rows[n - 1].hour is Some && uuids[n - 1] == Some(uuid));
            }
        }
    }
}

/// After a restart, everything fits together again.
pub proof fn law_restart_consistent(
    world: World,
    rows: Seq<RegistrationRow>,
    uuids: Seq<Option<Uuid>>,
)
    requires
        consistent(world),
        lists_table(rows, world.table),
        jobs_loaded(rows, uuids),
    ensures
        consistent(
            World {
                registrations: restored(restoring_all(rows), uuids, rows.len() as int),
                jobs: restored_jobs(rows, uuids, rows.len() as int),
                table: world.table,
            },
        ),
{
    let n = rows.len() as int;
    let after = World {
        registrations: restored(restoring_all(rows), uuids, n),
        jobs: restored_jobs(rows, uuids, n),
        table: world.table,
    };
    law_restart_restores(world, rows, uuids);
    lemma_restored(rows, uuids, n);
    lemma_restored_jobs(rows, uuids, n);
    assert forall|chat: i64| #[trigger] after.registrations.dom().contains(chat) implies fits(
        chat,
        after.registrations[chat],
        after.table[chat],
        after.jobs,
    ) by {
        let i = choose|i: int| 0 <= i < n && (#[trigger] rows[i]).chat_id == chat;
        assert(world.registrations.dom().contains(chat));
        assert(fits(chat, world.registrations[chat], world.table[chat], world.jobs));
        assert(world.table[chat] == rows[i]);
    }
    assert forall|chat: i64| #[trigger] after.registrations.dom().contains(chat) <==>
        after.table.dom().contains(chat) by {
        assert(after.registrations.dom().contains(chat) == world.registrations.dom().contains(
            chat,
        ));
    }
    assert forall|uuid: Uuid| #[trigger] after.jobs.dom().contains(uuid) implies job_uuid_of(
        registration_of(after.registrations, after.jobs[uuid].chat_id),
    ) == Some(uuid) by {
        let i = choose|i: int|
            0 <= i < n && (#[trigger] rows[i]).hour is Some && uuids[i] == Some(uuid);
        assert(after.jobs[uuids[i]->0].chat_id == rows[i].chat_id);
        assert(after.registrations.dom().contains(rows[i].chat_id));
    }
}

// ---------------------------------------------------------------------------------------------
// Changed plans
// ---------------------------------------------------------------------------------------------

/// The canteen whose plan has changed.
pub open spec fn changed_canteen(task: JobHandlerTask) -> Option<u32> {
    match (task.mensa_id, task.meals_diff) {
        (Some(mensa_id), _) => Some(mensa_id),
        (None, Some(diff)) => Some(diff.canteen_id),
        (None, None) => None,
    }
}

/// Whether a chat is told that the plan of a canteen has changed: it has a daily message from this
/// canteen, and its time has passed: an earlier hour, or an earlier minute of this hour.
pub open spec fn is_due(entry: RegistrationEntry, mensa_id: u32, now: (u32, u32)) -> bool {
    match (entry.hour, entry.minute) {
        (Some(hour), Some(minute)) => entry.mensa_id == mensa_id && (hour < now.0 || (hour == now.0
            && minute < now.1)),
        _ => false,
    }
}

/// Whether a chat is told that the plan of a canteen has changed, at a time of day.
pub fn update_due(entry: &RegistrationEntry, mensa_id: u32, now: (u32, u32)) -> (r: bool)
    ensures
        r == is_due(*entry, mensa_id, now),
{
    match (entry.hour, entry.minute) {
        (Some(hour), Some(minute)) => entry.mensa_id == mensa_id && (hour < now.0 || (hour == now.0
            && minute < now.1)),
        _ => false,
    }
}

/// Those of the first `n` chats that are told of a change, if the clock shows `times[i]` when it is
/// the turn of the chat `chats[i]`.
pub open spec fn due_chats(
    chats: Seq<i64>,
    registrations: Map<i64, RegistrationEntry>,
    mensa_id: u32,
    times: Seq<(u32, u32)>,
    n: int,
) -> Seq<i64>
    decreases n,
{
    if n <= 0 {
        Seq::empty()
    } else {
        let before = due_chats(chats, registrations, mensa_id, times, n - 1);
        if is_due(registrations[chats[n - 1]], mensa_id, times[n - 1]) {
            before.push(chats[n - 1])
        } else {
            before
        }
    }
}

/// Whether `told` are the chats that are told of a change, if the clock shows these times.
pub open spec fn tells(
    told: Seq<i64>,
    registrations: Map<i64, RegistrationEntry>,
    mensa_id: u32,
    chats: Seq<i64>,
    times: Seq<(u32, u32)>,
) -> bool {
    &&& ascending_i64(chats, registrations.dom())
    &&& times.len() == chats.len()
    &&& forall|i: int| 0 <= i < times.len() ==> (#[trigger] times[i]).0 < 24 && times[i].1 < 60
    &&& told == due_chats(chats, registrations, mensa_id, times, chats.len() as int)
}

/// Whether `told` are the chats that are told of a change, whatever the clock shows when it is the
/// turn of each.
pub open spec fn tells_at_some_times(
    told: Seq<i64>,
    registrations: Map<i64, RegistrationEntry>,
    mensa_id: u32,
) -> bool {
    exists|chats: Seq<i64>, times: Seq<(u32, u32)>| #[trigger]
        tells(told, registrations, mensa_id, chats, times)
}

/// Those of some chats that are told that the plan of a canteen has changed, if the clock shows
/// `times[i]` when it is the turn of the chat `chats[i]`.
pub fn chats_due(
    registrations: &BTreeMap<i64, RegistrationEntry>,
    mensa_id: u32,
    chats: &Vec<i64>,
    times: &Vec<(u32, u32)>,
) -> (r: Vec<i64>)
    requires
        chats@.len() == times@.len(),
        forall|i: int| 0 <= i < chats@.len() ==> registrations@.dom().contains(#[trigger] chats@[i]),
    ensures
        r@ == due_chats(chats@, registrations@, mensa_id, times@, chats@.len() as int),
{
    let mut told: Vec<i64> = Vec::new();
    for i in 0..chats.len()
        invariant
            chats@.len() == times@.len(),
            forall|j: int|
                0 <= j < chats@.len() ==> registrations@.dom().contains(#[trigger] chats@[j]),
            told@ == due_chats(chats@, registrations@, mensa_id, times@, i as int),
    {
        let chat_id: i64 = chats[i];
        assert(registrations@.dom().contains(chat_id));
        match registrations.get(&chat_id) {
            Some(entry) => {
                if update_due(entry, mensa_id, times[i]) {
                    told.push(chat_id);
                }
            },
            None => {},
        }
    }
    told
}

/// The chats that are told that the plan of a canteen has changed. The clock is read for each.
pub fn handle_broadcast_update_task(
    registrations: &BTreeMap<i64, RegistrationEntry>,
    job_handler_task: &JobHandlerTask,
) -> (r: Vec<i64>)
    requires
        changed_canteen(*job_handler_task) is Some,
    ensures
        tells_at_some_times(r@, registrations@, changed_canteen(*job_handler_task)->0),
{
    let mensa_id: u32 = match (job_handler_task.mensa_id, &job_handler_task.meals_diff) {
        (Some(mensa_id), _) => mensa_id,
        (None, Some(diff)) => diff.canteen_id,
        (None, None) => 0,
    };
    let chats = keys_i64(registrations);
    let mut times: Vec<(u32, u32)> = Vec::new();
    for i in 0..chats.len()
        invariant
            times@.len() == i,
            forall|j: int|
                0 <= j < times@.len() ==> (#[trigger] times@[j]).0 < 24 && times@[j].1 < 60,
    {
        times.push(time_of_day_now());
    }
    assert forall|i: int| 0 <= i < chats@.len() implies registrations@.dom().contains(
        #[trigger] chats@[i],
    ) by {
        assert(chats@.contains(chats@[i]));
    }
    let told = chats_due(registrations, mensa_id, &chats, &times);
    assert(mensa_id == changed_canteen(*job_handler_task)->0);
    assert(tells(told@, registrations@, mensa_id, chats@, times@));
    told
}

pub proof fn lemma_due_chats(
    chats: Seq<i64>,
    registrations: Map<i64, RegistrationEntry>,
    mensa_id: u32,
    times: Seq<(u32, u32)>,
    n: int,
)
    requires
        0 <= n <= chats.len(),
        times.len() == chats.len(),
    ensures
        forall|chat: i64| #[trigger]
            due_chats(chats, registrations, mensa_id, times, n).contains(chat) <==> exists|i: int|
                0 <= i < n && #[trigger] chats[i] == chat && is_due(
                    registrations[chat],
                    mensa_id,
                    times[i],
                ),
    decreases n,
{
    if n > 0 {
        lemma_due_chats(chats, registrations, mensa_id, times, n - 1);
        let before = due_chats(chats, registrations, mensa_id, times, n - 1);
        let now = due_chats(chats, registrations, mensa_id, times, n);
        assert forall|chat: i64| #[trigger] now.contains(chat) <==> exists|i: int|
            0 <= i < n && #[trigger] chats[i] == chat && is_due(
                registrations[chat],
                mensa_id,
                times[i],
            ) by {
            if now.contains(chat) {
                if before.contains(chat) {
                } else {
                    let k = choose|k: int| 0 <= k < now.len() && now[k] == chat;
                    assert(k == before.len()) by {
                        if k < before.len() {
                            assert(before[k] == chat);
                        }
                    }
                    assert(chats[n - 1] == chat);
                }
            }
            if exists|i: int|
                0 <= i < n && #[trigger] chats[i] == chat && is_due(
                    registrations[chat],
                    mensa_id,
                    times[i],
                ) {
                let i = choose|i: int|
                    0 <= i < n && #[trigger] chats[i] == chat && is_due(
                        registrations[chat],
                        mensa_id,
                        times[i],
                    );
                if i < n - 1 {
                    assert(before.contains(chat));
                    let k = choose|k: int| 0 <= k < before.len() && before[k] == chat;
                    assert(now[k] == chat);
                } else {
                    assert(now.last() == chat);
                }
            }
        }
    }
}

/// A change at one time of day is told to those chats, and to no others, that have a daily message
/// from the canteen whose time has come.
pub proof fn law_told_are_due(
    told: Seq<i64>,
    registrations: Map<i64, RegistrationEntry>,
    mensa_id: u32,
    chats: Seq<i64>,
    now: (u32, u32),
    chat: i64,
)
    requires
        tells(told, registrations, mensa_id, chats, Seq::new(chats.len(), |i: int| now)),
    ensures
        told.contains(chat) <==> registrations.dom().contains(chat) && is_due(
            registrations[chat],
            mensa_id,
            now,
        ),
{
    let times = Seq::new(chats.len(), |i: int| now);
    lemma_due_chats(chats, registrations, mensa_id, times, chats.len() as int);
    assert(chats.contains(chat) <==> registrations.dom().contains(chat));
}

/// A chat without a daily message is never told of a change, and neither is one of another canteen.
pub proof fn law_only_subscribers_told(
    told: Seq<i64>,
    registrations: Map<i64, RegistrationEntry>,
    mensa_id: u32,
    chats: Seq<i64>,
    times: Seq<(u32, u32)>,
    chat: i64,
)
    requires
        tells(told, registrations, mensa_id, chats, times),
        told.contains(chat),
    ensures
        registrations.dom().contains(chat),
        registrations[chat].mensa_id == mensa_id,
        registrations[chat].hour is Some,
        registrations[chat].minute is Some,
{
    lemma_due_chats(chats, registrations, mensa_id, times, chats.len() as int);
    let i = choose|i: int|
        0 <= i < chats.len() && #[trigger] chats[i] == chat && is_due(
            registrations[chat],
            mensa_id,
            times[i],
        );
    assert(chats.contains(chat));
}

/// The message that shows a changed plan.
pub open spec fn change_text(plan: Seq<char>) -> Seq<char> {
    bold_text(underline_text("Planänderung:"@)) + "\n"@ + plan
}

/// The message that shows a changed plan.
pub fn change_message(plan: &str) -> (r: String)
    ensures
        r@ == change_text(plan@),
{
    let mut r = bold(underline("Planänderung:").as_str());
    r.append("\n");
    r.append(plan);
    r
}

/// If the plan is escaped, so is the message that shows that it has changed.
pub proof fn law_change_is_escaped(plan: Seq<char>)
    requires
        well_escaped(plan),
    ensures
        well_escaped(change_text(plan)),
{
    reveal_strlit("Planänderung:");
    reveal_strlit("\n");
    let head = bold_text(underline_text("Planänderung:"@)) + "\n"@;
    assert(change_text(plan) == head + plan);
    assert forall|i: int| 0 <= i < (head + plan).len() && is_special(#[trigger] (head
        + plan)[i]) implies i > 0 && (head + plan)[i - 1] == '\\' by {
        if i >= head.len() {
            assert(plan[i - head.len()] == (head + plan)[i]);
        }
    }
}

/// Whether the service announces changed plans.
pub fn announces_changes(backend: Backend) -> (r: bool)
    ensures
        r == (backend == Backend::StuWe),
{
    matches!(backend, Backend::StuWe)
}

/// Where changed plans are announced.
pub fn mealplan_updates_url(api_url: &str) -> (r: String)
    ensures
        r@ == api_url@ + "/today_updated_ws"@,
{
    let mut r = owned(api_url);
    r.append("/today_updated_ws");
    r
}

/// The order to tell of a changed plan, from the announcement: the number of the canteen. `None` if
/// it is no such number.
pub fn await_handle_mealplan_upd(text: &str) -> (r: Option<JobHandlerTask>)
    ensures
        match r {
            Some(task) => {
                &&& is_unsigned(text@, u32::MAX + 1)
                &&& task == JobHandlerTask {
                    job_type: JobType::BroadcastUpdate,
                    chat_id: None,
                    mensa_id: Some(digits_value(unsigned_digits(text@)) as u32),
                    hour: None,
                    minute: None,
                    meals_diff: None,
                }
            },
            None => !is_unsigned(text@, u32::MAX + 1),
        },
{
    match parse_u32(text) {
        Some(mensa_id) => Some(
            JobHandlerTask {
                job_type: JobType::BroadcastUpdate,
                chat_id: None,
                mensa_id: Some(mensa_id),
                hour: None,
                minute: None,
                meals_diff: None,
            },
        ),
        None => None,
    }
}

// ---------------------------------------------------------------------------------------------
// News from CampusDual
// ---------------------------------------------------------------------------------------------

/// What a message about CampusDual is about.
#[derive(Debug, Copy, Clone, PartialEq, Eq, Structural)]
pub enum CampusDualNews {
    Grades,
    SignupOptions,
}

/// A message about CampusDual, and the chat that hears of it.
#[derive(Debug, Clone, PartialEq)]
pub struct CampusDualNotice {
    pub chat_id: i64,
    pub news: CampusDualNews,
    pub text: String,
}

/// What is seen of some messages.
pub open spec fn notice_views(notices: Seq<CampusDualNotice>) -> Seq<
    (i64, CampusDualNews, Seq<char>),
> {
    notices.map_values(|n: CampusDualNotice| (n.chat_id, n.news, n.text@))
}

/// The message about new results, if there are any.
pub open spec fn grade_notice(chat_id: i64, new: Option<Seq<GradeView>>) -> Seq<
    (i64, CampusDualNews, Seq<char>),
> {
    match new {
        Some(new) => seq![
            (chat_id, CampusDualNews::Grades, "Neue Note:"@ + grade_rows(new, new.len() as int)),
        ],
        None => seq![],
    }
}

/// The message about new exams, if there are any.
pub open spec fn signup_notice(chat_id: i64, new: Option<Seq<SignupView>>) -> Seq<
    (i64, CampusDualNews, Seq<char>),
> {
    match new {
        Some(new) => seq![
            (
                chat_id,
                CampusDualNews::SignupOptions,
                "Neue Anmeldemöglichkeit:"@ + signup_rows(new, new.len() as int),
            ),
        ],
        None => seq![],
    }
}

/// The messages about what is new at CampusDual: one about results, then one about exams. What has
/// never been stored is stored.
pub fn check_notify_campusdual_grades_signups(
    chat_id: i64,
    grades: &Vec<CampusDualGrade>,
    stored_grades: &mut Option<Vec<CampusDualGrade>>,
    signup_options: &Vec<CampusDualSignupOption>,
    stored_options: &mut Option<Vec<CampusDualSignupOption>>,
) -> (r: Vec<CampusDualNotice>)
    ensures
        notice_views(r@) == grade_notice(
            chat_id,
            reported(grade_views(grades@), known_grades(*old(stored_grades))),
        ) + signup_notice(
            chat_id,
            reported(signup_views(signup_options@), known_signups(*old(stored_options))),
        ),
        known_grades(*final(stored_grades)) == stored_after_comparing(
            grade_views(grades@),
            known_grades(*old(stored_grades)),
        ),
        known_signups(*final(stored_options)) == stored_after_comparing(
            signup_views(signup_options@),
            known_signups(*old(stored_options)),
        ),
{
    let mut r: Vec<CampusDualNotice> = Vec::new();
    let ghost known = known_grades(*stored_grades);
    if let Some(new_grades) = compare_campusdual_grades(grades, stored_grades) {
        r.push(
            CampusDualNotice {
                chat_id,
                news: CampusDualNews::Grades,
                text: grades_message(&new_grades),
            },
        );
    }
    assert(notice_views(r@) == grade_notice(chat_id, reported(grade_views(grades@), known)));
    let ghost before = notice_views(r@);
    let ghost known_options = known_signups(*stored_options);
    if let Some(new_options) = compare_campusdual_signup_options(signup_options, stored_options) {
        r.push(
            CampusDualNotice {
                chat_id,
                news: CampusDualNews::SignupOptions,
                text: signup_options_message(&new_options),
            },
        );
    }
    assert(notice_views(r@) == before + signup_notice(
        chat_id,
        reported(signup_views(signup_options@), known_options),
    ));
    r
}

/// Stores what a message was about, all of it, if the message was sent. If it was not, what is stored
/// stays as it is.
pub fn notice_sent(
    news: CampusDualNews,
    sent: bool,
    grades: &Vec<CampusDualGrade>,
    stored_grades: &mut Option<Vec<CampusDualGrade>>,
    signup_options: &Vec<CampusDualSignupOption>,
    stored_options: &mut Option<Vec<CampusDualSignupOption>>,
)
    ensures
        known_grades(*final(stored_grades)) == stored_after_sending(
            grade_views(grades@),
            known_grades(*old(stored_grades)),
            sent && news == CampusDualNews::Grades,
        ),
        known_signups(*final(stored_options)) == stored_after_sending(
            signup_views(signup_options@),
            known_signups(*old(stored_options)),
            sent && news == CampusDualNews::SignupOptions,
        ),
{
    if sent {
        match news {
            CampusDualNews::Grades => save_campusdual_grades(grades, stored_grades),
            CampusDualNews::SignupOptions => save_campusdual_signup_options(
                signup_options,
                stored_options,
            ),
        }
    }
}

// ---------------------------------------------------------------------------------------------
// Taking orders
// ---------------------------------------------------------------------------------------------

/// What is registered for the chat of an order.
pub fn handle_query_registration_task(
    registrations: &BTreeMap<i64, RegistrationEntry>,
    job_handler_task: &JobHandlerTask,
) -> (r: Option<RegistrationEntry>)
    requires
        job_handler_task.chat_id is Some,
    ensures
        r == registration_of(registrations@, job_handler_task.chat_id->0),
{
    get_user_registration(registrations, job_handler_task.chat_id.unwrap())
}

/// What comes of an order.
#[derive(Debug, PartialEq)]
pub enum SchedulerStep {
    /// A plan to carry out.
    Carry(SchedulerPlan),
    /// A message to a chat.
    Notify { chat_id: i64, text: String },
    /// What is registered for the chat.
    Answer(Option<RegistrationEntry>),
    /// The chats that are told of a changed plan.
    Tell(Vec<i64>),
}

/// Whether an order can be taken.
pub open spec fn takable(
    registrations: Map<i64, RegistrationEntry>,
    task: JobHandlerTask,
) -> bool {
    match task.job_type {
        JobType::Register => fills_row(task),
        JobType::UpdateRegistration => updatable(
            registration_of(registrations, task.chat_id->0),
            task,
        ),
        JobType::DeleteRegistration => deletable(registrations, task),
        JobType::QueryRegistration => task.chat_id is Some,
        JobType::BroadcastUpdate => changed_canteen(task) is Some,
    }
}

/// Whether `step` is what comes of an order.
pub open spec fn answers_order(
    registrations: Map<i64, RegistrationEntry>,
    task: JobHandlerTask,
    step: SchedulerStep,
) -> bool {
    match task.job_type {
        JobType::Register => step matches SchedulerStep::Carry(plan) && plan@ == adding(
            registrations,
            task,
        ),
        JobType::UpdateRegistration => match registration_of(registrations, task.chat_id->0) {
            Some(registration) => step matches SchedulerStep::Carry(plan) && plan@ == updating(
                registration,
                task,
            ),
            None => step matches SchedulerStep::Notify { chat_id, text } && chat_id
                == task.chat_id->0 && text@ == NO_DB_MSG@,
        },
        JobType::DeleteRegistration => step matches SchedulerStep::Carry(plan) && plan@
            == deleting(registrations[task.chat_id->0], task),
        JobType::QueryRegistration => step == SchedulerStep::Answer(
            registration_of(registrations, task.chat_id->0),
        ),
        JobType::BroadcastUpdate => step matches SchedulerStep::Tell(told) && tells_at_some_times(
            told@,
            registrations,
            changed_canteen(task)->0,
        ),
    }
}

/// Takes one order.
pub fn run_task_scheduler(
    registrations: &BTreeMap<i64, RegistrationEntry>,
    job_handler_task: &JobHandlerTask,
) -> (r: SchedulerStep)
    requires
        takable(registrations@, *job_handler_task),
    ensures
        answers_order(registrations@, *job_handler_task, r),
{
    match job_handler_task.job_type {
        JobType::Register => SchedulerStep::Carry(
            handle_add_registration_task(registrations, job_handler_task),
        ),
        JobType::UpdateRegistration => match handle_update_registration_task(
            registrations,
            job_handler_task,
        ) {
            Some(plan) => SchedulerStep::Carry(plan),
            None => SchedulerStep::Notify {
                chat_id: job_handler_task.chat_id.unwrap(),
                text: owned(NO_DB_MSG),
            },
        },
        JobType::DeleteRegistration => SchedulerStep::Carry(
            handle_delete_registration_task(registrations, job_handler_task),
        ),
        JobType::QueryRegistration => SchedulerStep::Answer(
            handle_query_registration_task(registrations, job_handler_task),
        ),
        JobType::BroadcastUpdate => SchedulerStep::Tell(
            handle_broadcast_update_task(registrations, job_handler_task),
        ),
    }
}

} // verus!
