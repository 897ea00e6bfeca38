//! The task scheduler of the bot with day buttons.
use crate::button_bot::data_types::{JobHandlerTask, JobType, RegistrationEntry};
use crate::button_bot::db_operations::{
    fills_row, init_db_record, row_updates, task_db_kill_auto, update_db_row, DbChange,
};
use crate::button_bot::handlers::other_mensa;
use crate::constants::NO_DB_MSG;
use crate::data_types;
use crate::data_types::Backend;
use crate::ordered::{ascending_i64, keys_i64};
use crate::shared_main::DailyJob;
use crate::task_scheduler_funcs::{handle_broadcast_update_task, or_else, tells_at_some_times};
use crate::text::owned;
use std::collections::BTreeMap;
use uuid::Uuid;
use vstd::prelude::*;

verus! {

// ---------------------------------------------------------------------------------------------
// Plans
// ---------------------------------------------------------------------------------------------

/// What is done to carry out an order: the job that is no longer wanted is unloaded, then a new one
/// is loaded, then the registration of the chat is set, and the statements are executed.
#[derive(Debug, PartialEq)]
pub struct SchedulerPlan {
    pub chat_id: i64,
    /// The job to unload.
    pub unload: Option<Uuid>,
    /// The job to load.
    pub load: Option<DailyJob>,
    /// What is registered for the chat from now on. If a job is loaded, it is the job of the chat;
    /// else it is the one that is named here.
    pub entry: RegistrationEntry,
    /// What is executed on the database.
    pub changes: Vec<DbChange>,
}

/// A plan, with its statements as a sequence.
#[verifier::ext_equal]
pub ghost struct PlanView {
    pub chat_id: i64,
    pub unload: Option<Uuid>,
    pub load: Option<DailyJob>,
    pub entry: RegistrationEntry,
    pub changes: Seq<DbChange>,
}

impl View for SchedulerPlan {
    type V = PlanView;

    open spec fn view(&self) -> PlanView {
        PlanView {
            chat_id: self.chat_id,
            unload: self.unload,
            load: self.load,
            entry: self.entry,
            changes: self.changes@,
        }
    }
}

/// What is registered for a chat.
pub open spec fn registration_of(
    registrations: Map<i64, RegistrationEntry>,
    chat_id: i64,
) -> Option<RegistrationEntry> {
    if registrations.dom().contains(chat_id) {
        Some(registrations[chat_id])
    } else {
        None
    }
}

/// What is registered for a chat.
pub fn get_user_registration(
    registrations: &BTreeMap<i64, RegistrationEntry>,
    chat_id: i64,
) -> (r: Option<RegistrationEntry>)
    ensures
        r == registration_of(registrations@, chat_id),
{
    match registrations.get(&chat_id) {
        Some(entry) => Some(*entry),
        None => None,
    }
}

/// The job for a time of day, if there is one.
pub open spec fn job_at(
    chat_id: i64,
    mensa_id: u8,
    hour: Option<u32>,
    minute: Option<u32>,
) -> Option<DailyJob> {
    match hour {
        Some(hour) => Some(
            DailyJob { chat_id, mensa_id: mensa_id as u32, hour, minute: minute->0 },
        ),
        None => None,
    }
}

/// What it takes to enter a chat. The message with buttons stays the one that it was.
pub open spec fn adding(previous: Option<RegistrationEntry>, task: JobHandlerTask) -> PlanView {
    let chat_id = task.chat_id->0;
    let mensa_id = task.mensa_id->0;
    PlanView {
        chat_id,
        unload: match previous {
            Some(previous) => previous.job_uuid,
            None => None,
        },
        load: job_at(chat_id, mensa_id, task.hour, task.minute),
        entry: RegistrationEntry {
            job_uuid: None,
            mensa_id,
            hour: task.hour,
            minute: task.minute,
            callback_id: match previous {
                Some(previous) => previous.callback_id,
                None => None,
            },
        },
        changes: seq![
            DbChange::Replace { chat_id, mensa_id, hour: task.hour->0, minute: task.minute->0 },
        ],
    }
}

fn plan_adding(previous: Option<RegistrationEntry>, task: &JobHandlerTask) -> (r: SchedulerPlan)
    requires
        fills_row(*task),
    ensures
        r@ == adding(previous, *task),
{
    let chat_id: i64 = task.chat_id.unwrap();
    let mensa_id: u8 = task.mensa_id.unwrap();
    let hour: u32 = task.hour.unwrap();
    let minute: u32 = task.minute.unwrap();
    let (unload, callback_id) = match previous {
        Some(previous) => (previous.job_uuid, previous.callback_id),
        None => (None, None),
    };
    let changes = vec![init_db_record(task)];
    assert(changes@ == adding(previous, *task).changes);
    SchedulerPlan {
        chat_id,
        unload,
        load: Some(DailyJob { chat_id, mensa_id: mensa_id as u32, hour, minute }),
        entry: RegistrationEntry {
            job_uuid: None,
            mensa_id,
            hour: task.hour,
            minute: task.minute,
            callback_id,
        },
        changes,
    }
}

/// Whether an order changes anything that a job depends on.
pub open spec fn changes_job(task: JobHandlerTask) -> bool {
    task.hour is Some || task.minute is Some || task.mensa_id is Some
}

/// What it takes to change what is registered for a chat: what the order leaves open stays as it
/// is, and if it brings a new time or canteen, a new job takes the place of the old one.
pub open spec fn updating(previous: RegistrationEntry, task: JobHandlerTask) -> PlanView {
    let chat_id = task.chat_id->0;
    let mensa_id = or_else(task.mensa_id, Some(previous.mensa_id))->0;
    let hour = or_else(task.hour, previous.hour);
    let minute = or_else(task.minute, previous.minute);
    PlanView {
        chat_id,
        unload: if changes_job(task) {
            previous.job_uuid
        } else {
            None
        },
        load: if changes_job(task) {
            job_at(chat_id, mensa_id, hour, minute)
        } else {
            None
        },
        entry: RegistrationEntry {
            job_uuid: if changes_job(task) {
                None
            } else {
                previous.job_uuid
            },
            mensa_id,
            hour,
            minute,
            callback_id: previous.callback_id,
        },
        changes: row_updates(task),
    }
}

/// Whether the registration of a chat can be changed by an order: the order names the chat, an hour
/// comes with a minute, and so does the hour of the job that would be loaded.
pub open spec fn updatable(
    backend: Backend,
    previous: Option<RegistrationEntry>,
    task: JobHandlerTask,
) -> bool {
    &&& task.chat_id is Some
    &&& backend == Backend::MensiMates || previous is Some ==> task.hour is Some
        ==> task.minute is Some
    &&& previous matches Some(previous) ==> changes_job(task) ==> or_else(
        task.hour,
        previous.hour,
    ) is Some ==> or_else(task.minute, previous.minute) is Some
}

fn plan_updating(previous: RegistrationEntry, task: &JobHandlerTask) -> (r: SchedulerPlan)
    requires
        updatable(Backend::StuWe, Some(previous), *task),
    ensures
        r@ == updating(previous, *task),
{
    let chat_id: i64 = task.chat_id.unwrap();
    let mensa_id: u8 = match task.mensa_id {
        Some(mensa_id) => mensa_id,
        None => previous.mensa_id,
    };
    let hour = match task.hour {
        Some(hour) => Some(hour),
        None => previous.hour,
    };
    let minute = match task.minute {
        Some(minute) => Some(minute),
        None => previous.minute,
    };
    let reload = task.hour.is_some() || task.minute.is_some() || task.mensa_id.is_some();
    let load = if reload {
        match hour {
            Some(hour) => Some(
                DailyJob { chat_id, mensa_id: mensa_id as u32, hour, minute: minute.unwrap() },
            ),
            None => None,
        }
    } else {
        None
    };
    SchedulerPlan {
        chat_id,
        unload: if reload {
            previous.job_uuid
        } else {
            None
        },
        load,
        entry: RegistrationEntry {
            job_uuid: if reload {
                None
            } else {
                previous.job_uuid
            },
            mensa_id,
            hour,
            minute,
            callback_id: previous.callback_id,
        },
        changes: update_db_row(task),
    }
}

/// What it takes to stop the daily message of a chat.
pub open spec fn deleting(previous: RegistrationEntry, task: JobHandlerTask) -> PlanView {
    let chat_id = task.chat_id->0;
    PlanView {
        chat_id,
        unload: previous.job_uuid,
        load: None,
        entry: RegistrationEntry { job_uuid: None, hour: None, minute: None, ..previous },
        changes: seq![DbChange::ClearTime { chat_id }],
    }
}

fn plan_deleting(previous: RegistrationEntry, task: &JobHandlerTask) -> (r: SchedulerPlan)
    requires
        task.chat_id is Some,
    ensures
        r@ == deleting(previous, *task),
{
    let chat_id: i64 = task.chat_id.unwrap();
    let changes = vec![task_db_kill_auto(chat_id)];
    assert(changes@ == deleting(previous, *task).changes);
    SchedulerPlan {
        chat_id,
        unload: previous.job_uuid,
        load: None,
        entry: RegistrationEntry {
            job_uuid: None,
            mensa_id: previous.mensa_id,
            hour: None,
            minute: None,
            callback_id: previous.callback_id,
        },
        changes,
    }
}

/// What it takes to remember which message of a chat has buttons.
pub open spec fn inserting(previous: RegistrationEntry, task: JobHandlerTask) -> PlanView {
    PlanView {
        chat_id: task.chat_id->0,
        unload: None,
        load: None,
        entry: RegistrationEntry { callback_id: task.callback_id, ..previous },
        changes: Seq::empty(),
    }
}

fn plan_inserting(previous: RegistrationEntry, task: &JobHandlerTask) -> (r: SchedulerPlan)
    requires
        task.chat_id is Some,
    ensures
        r@ == inserting(previous, *task),
{
    SchedulerPlan {
        chat_id: task.chat_id.unwrap(),
        unload: None,
        load: None,
        entry: RegistrationEntry {
            job_uuid: previous.job_uuid,
            mensa_id: previous.mensa_id,
            hour: previous.hour,
            minute: previous.minute,
            callback_id: task.callback_id,
        },
        changes: Vec::new(),
    }
}

/// What is registered once the job of a plan is loaded, if it has one.
pub open spec fn settled(plan: PlanView, loaded: Option<Uuid>) -> RegistrationEntry {
    RegistrationEntry { job_uuid: or_else(loaded, plan.entry.job_uuid), ..plan.entry }
}

/// Sets the registration of a plan's chat, once its job is loaded.
pub fn settle(
    registrations: &mut BTreeMap<i64, RegistrationEntry>,
    plan: &SchedulerPlan,
    loaded: Option<Uuid>,
)
    ensures
        final(registrations)@ == old(registrations)@.insert(plan.chat_id, settled(plan@, loaded)),
{
    let job_uuid = match loaded {
        Some(uuid) => Some(uuid),
        None => plan.entry.job_uuid,
    };
    registrations.insert(
        plan.chat_id,
        RegistrationEntry {
            job_uuid,
            mensa_id: plan.entry.mensa_id,
            hour: plan.entry.hour,
            minute: plan.entry.minute,
            callback_id: plan.entry.callback_id,
        },
    );
}

// ---------------------------------------------------------------------------------------------
// Changed plans
// ---------------------------------------------------------------------------------------------

/// What of a registration tells whether its chat is told of a changed plan: all of it but the message
/// with buttons.
pub open spec fn plain_entry(entry: RegistrationEntry) -> data_types::RegistrationEntry {
    data_types::RegistrationEntry {
        job_uuid: entry.job_uuid,
        mensa_id: entry.mensa_id as u32,
        hour: entry.hour,
        minute: entry.minute,
    }
}

/// What of all registrations tells which chats are told of a changed plan.
pub open spec fn plain_entries(registrations: Map<i64, RegistrationEntry>) -> Map<
    i64,
    data_types::RegistrationEntry,
> {
    registrations.map_values(|entry: RegistrationEntry| plain_entry(entry))
}

fn without_buttons(registrations: &BTreeMap<i64, RegistrationEntry>) -> (r: BTreeMap<
    i64,
    data_types::RegistrationEntry,
>)
    ensures
        r@ == plain_entries(registrations@),
{
    let chats = keys_i64(registrations);
    let mut r: BTreeMap<i64, data_types::RegistrationEntry> = BTreeMap::new();
    for i in 0..chats.len()
        invariant
            ascending_i64(chats@, registrations@.dom()),
            forall|chat: i64| #[trigger]
                r@.dom().contains(chat) <==> chats@.take(i as int).contains(chat),
            forall|chat: i64| #[trigger]
                r@.dom().contains(chat) ==> r@[chat] == plain_entry(registrations@[chat]),
    {
        let chat_id: i64 = chats[i];
        assert(chats@.contains(chat_id));
        let ghost before = chats@.take(i as int);
        let ghost after = chats@.take(i + 1);
        assert(after == before.push(chat_id));
        assert forall|chat: i64| #[trigger] after.contains(chat) <==> before.contains(chat) || chat
            == chat_id by {
            if before.contains(chat) {
                let k = choose|k: int| 0 <= k < before.len() && before[k] == chat;
                assert(after[k] == chat);
            }
            if chat == chat_id {
                assert(after[i as int] == chat);
            }
            if after.contains(chat) && chat != chat_id {
                let k = choose|k: int| 0 <= k < after.len() && after[k] == chat;
                assert(before[k] == chat);
            }
        }
        match registrations.get(&chat_id) {
            Some(entry) => {
                r.insert(
                    chat_id,
                    data_types::RegistrationEntry {
                        job_uuid: entry.job_uuid,
                        mensa_id: entry.mensa_id as u32,
                        hour: entry.hour,
                        minute: entry.minute,
                    },
                );
            },
            None => {},
        }
    }
    assert(chats@.take(chats@.len() as int) == chats@);
    assert(r@ =~= plain_entries(registrations@)) by {
        assert forall|chat: i64| #[trigger] r@.dom().contains(chat) <==> plain_entries(
            registrations@,
        ).dom().contains(chat) by {
            assert(chats@.contains(chat) <==> registrations@.dom().contains(chat));
        }
    }
    r
}

fn chats_to_tell(
    registrations: &BTreeMap<i64, RegistrationEntry>,
    mensa_id: u8,
) -> (r: Vec<i64>)
    ensures
        tells_at_some_times(r@, plain_entries(registrations@), mensa_id as u32),
{
    handle_broadcast_update_task(
        &without_buttons(registrations),
        &data_types::JobHandlerTask {
            job_type: data_types::JobType::BroadcastUpdate,
            chat_id: None,
            mensa_id: Some(mensa_id as u32),
            hour: None,
            minute: None,
            meals_diff: None,
        },
    )
}

// ---------------------------------------------------------------------------------------------
// Taking orders
// ---------------------------------------------------------------------------------------------

/// What comes of an order.
#[derive(Debug, PartialEq)]
pub enum SchedulerStep {
    /// A plan to carry out.
    Carry(SchedulerPlan),
    /// A message to a chat.
    Notify { chat_id: i64, text: String },
    /// What is registered for the chat.
    Answer(Option<RegistrationEntry>),
    /// The chats that are told of a changed plan.
    Tell(Vec<i64>),
}

/// Whether an order can be taken.
pub open spec fn takable(
    backend: Backend,
    registrations: Map<i64, RegistrationEntry>,
    task: JobHandlerTask,
) -> bool {
    let previous = registration_of(registrations, task.chat_id->0);
    match task.job_type {
        JobType::Register => fills_row(task),
        JobType::UpdateRegistration => updatable(backend, previous, task),
        JobType::Unregister => task.chat_id is Some && (previous matches Some(previous)
            && previous.job_uuid is Some),
        JobType::QueryRegistration => task.chat_id is Some,
        JobType::BroadcastUpdate => backend == Backend::StuWe ==> task.mensa_id is Some,
        JobType::InsertCallbackMessageId => task.chat_id is Some && previous is Some,
    }
}

/// Whether `step` is what comes of an order.
pub open spec fn answers_order(
    backend: Backend,
    registrations: Map<i64, RegistrationEntry>,
    task: JobHandlerTask,
    step: SchedulerStep,
) -> bool {
    let previous = registration_of(registrations, task.chat_id->0);
    match task.job_type {
        JobType::Register => step matches SchedulerStep::Carry(plan) && plan@ == adding(
            previous,
            task,
        ),
        JobType::UpdateRegistration => match previous {
            Some(previous) => step matches SchedulerStep::Carry(plan) && plan@ == updating(
                previous,
                task,
            ),
            None => step matches SchedulerStep::Notify { chat_id, text } && chat_id
                == task.chat_id->0 && text@ == NO_DB_MSG@,
        },
        JobType::Unregister => step matches SchedulerStep::Carry(plan) && plan@ == deleting(
            previous->0,
            task,
        ),
        JobType::QueryRegistration => step == SchedulerStep::Answer(previous),
        JobType::BroadcastUpdate => step matches SchedulerStep::Tell(told) && match backend {
            Backend::StuWe => tells_at_some_times(
                told@,
                plain_entries(registrations),
                task.mensa_id->0 as u32,
            ),
            Backend::MensiMates => told@.len() == 0,
        },
        JobType::InsertCallbackMessageId => step matches SchedulerStep::Carry(plan) && plan@
            == inserting(previous->0, task),
    }
}

/// Takes one order.
pub fn init_task_scheduler(
    backend: Backend,
    registrations: &BTreeMap<i64, RegistrationEntry>,
    job_handler_task: &JobHandlerTask,
) -> (r: SchedulerStep)
    requires
        takable(backend, registrations@, *job_handler_task),
    ensures
        answers_order(backend, registrations@, *job_handler_task, r),
{
    if let JobType::BroadcastUpdate = job_handler_task.job_type {
        return match backend {
            Backend::StuWe => SchedulerStep::Tell(
                chats_to_tell(registrations, job_handler_task.mensa_id.unwrap()),
            ),
            Backend::MensiMates => SchedulerStep::Tell(Vec::new()),
        };
    }
    let chat_id: i64 = job_handler_task.chat_id.unwrap();
    let previous = get_user_registration(registrations, chat_id);
    match job_handler_task.job_type {
        JobType::Register => SchedulerStep::Carry(plan_adding(previous, job_handler_task)),
        JobType::UpdateRegistration => match previous {
            Some(previous) => SchedulerStep::Carry(plan_updating(previous, job_handler_task)),
            None => SchedulerStep::Notify { chat_id, text: owned(NO_DB_MSG) },
        },
        JobType::Unregister => SchedulerStep::Carry(
            plan_deleting(previous.unwrap(), job_handler_task),
        ),
        JobType::QueryRegistration => SchedulerStep::Answer(previous),
        JobType::InsertCallbackMessageId => SchedulerStep::Carry(
            plan_inserting(previous.unwrap(), job_handler_task),
        ),
        JobType::BroadcastUpdate => SchedulerStep::Tell(Vec::new()),
    }
}

/// What is registered once the first `n` of the orders that restore the table have been carried out.
pub open spec fn restored(
    tasks: Seq<JobHandlerTask>,
    uuids: Seq<Option<Uuid>>,
    n: int,
) -> Map<i64, RegistrationEntry>
    decreases n,
{
    if n <= 0 {
        Map::empty()
    } else {
        let task = tasks[n - 1];
        restored(tasks, uuids, n - 1).insert(
            task.chat_id->0,
            RegistrationEntry {
                job_uuid: uuids[n - 1],
                mensa_id: task.mensa_id->0,
                hour: task.hour,
                minute: task.minute,
                callback_id: task.callback_id,
            },
        )
    }
}

/// Whether all of the orders name a chat and a canteen.
pub open spec fn all_named(tasks: Seq<JobHandlerTask>) -> bool {
    forall|i: int|
        0 <= i < tasks.len() ==> (#[trigger] tasks[i]).chat_id is Some && tasks[i].mensa_id is Some
}

/// Registers what the table holds, with the job that was loaded for each of its rows.
pub fn load_registrations(tasks: &Vec<JobHandlerTask>, uuids: &Vec<Option<Uuid>>) -> (r: BTreeMap<
    i64,
    RegistrationEntry,
>)
    requires
        all_named(tasks@),
        tasks@.len() == uuids@.len(),
    ensures
        r@ == restored(tasks@, uuids@, tasks@.len() as int),
{
    let mut loaded: BTreeMap<i64, RegistrationEntry> = BTreeMap::new();
    for i in 0..tasks.len()
        invariant
            all_named(tasks@),
            tasks@.len() == uuids@.len(),
            loaded@ == restored(tasks@, uuids@, i as int),
    {
        let task = tasks[i];
        loaded.insert(
            task.chat_id.unwrap(),
            RegistrationEntry {
                job_uuid: uuids[i],
                mensa_id: task.mensa_id.unwrap(),
                hour: task.hour,
                minute: task.minute,
                callback_id: task.callback_id,
            },
        );
    }
    loaded
}

// ---------------------------------------------------------------------------------------------
// What every order keeps
// ---------------------------------------------------------------------------------------------

/// Whether a chat has a job if and only if it has a time, and the job that is loaded under its name
/// sends the plan of the chat's canteen at the chat's time.
pub open spec fn job_fits(
    chat_id: i64,
    entry: RegistrationEntry,
    jobs: Map<Uuid, DailyJob>,
) -> bool {
    &&& entry.job_uuid is Some <==> entry.hour is Some
    &&& entry.job_uuid matches Some(uuid) ==> jobs.dom().contains(uuid) && Some(jobs[uuid])
        == job_at(chat_id, entry.mensa_id, entry.hour, entry.minute)
}

/// Whether the jobs that are loaded are the jobs of the chats: each chat has the job that it should,
/// and whatever is loaded is the job of its chat.
pub open spec fn jobs_match(
    registrations: Map<i64, RegistrationEntry>,
    jobs: Map<Uuid, DailyJob>,
) -> bool {
    &&& forall|chat: i64| #[trigger]
        registrations.dom().contains(chat) ==> job_fits(chat, registrations[chat], jobs)
    &&& forall|uuid: Uuid| #[trigger]
        jobs.dom().contains(uuid) ==> registrations.dom().contains(jobs[uuid].chat_id)
            && registrations[jobs[uuid].chat_id].job_uuid == Some(uuid)
}

/// The jobs that are loaded for the first `n` of the orders that restore the table.
pub open spec fn restored_jobs(
    tasks: Seq<JobHandlerTask>,
    uuids: Seq<Option<Uuid>>,
    n: int,
) -> Map<Uuid, DailyJob>
    decreases n,
{
    if n <= 0 {
        Map::empty()
    } else {
        let task = tasks[n - 1];
        let before = restored_jobs(tasks, uuids, n - 1);
        match job_at(task.chat_id->0, task.mensa_id->0, task.hour, task.minute) {
            Some(job) => before.insert(uuids[n - 1]->0, job),
            None => before,
        }
    }
}

/// Whether no two of the orders are for one chat, and every order with a time, and no other, got a
/// job of its own.
pub open spec fn jobs_loaded(tasks: Seq<JobHandlerTask>, uuids: Seq<Option<Uuid>>) -> bool {
    &&& uuids.len() == tasks.len()
    &&& forall|i: int|
        0 <= i < tasks.len() ==> ((#[trigger] tasks[i]).hour is Some <==> uuids[i] is Some)
    &&& forall|i: int, j: int|
        0 <= i < j < tasks.len() ==> (#[trigger] tasks[i]).chat_id != (#[trigger] tasks[j]).chat_id
    &&& forall|i: int, j: int|
        0 <= i < j < uuids.len() && (#[trigger] uuids[i]) is Some ==> uuids[i]
            != #[trigger] uuids[j]
}

proof fn lemma_restored(tasks: Seq<JobHandlerTask>, uuids: Seq<Option<Uuid>>, n: int)
    requires
        0 <= n <= tasks.len(),
        all_named(tasks),
        jobs_loaded(tasks, uuids),
    ensures
        jobs_match(restored(tasks, uuids, n), restored_jobs(tasks, uuids, n)),
        forall|chat: i64| #[trigger]
            restored(tasks, uuids, n).dom().contains(chat) ==> exists|i: int|
                0 <= i < n && (#[trigger] tasks[i]).chat_id == Some(chat),
        forall|uuid: Uuid| #[trigger]
            restored_jobs(tasks, uuids, n).dom().contains(uuid) ==> exists|i: int|
                0 <= i < n && #[trigger] uuids[i] == Some(uuid),
    decreases n,
{
    if n > 0 {
        lemma_restored(tasks, uuids, n - 1);
        let task = tasks[n - 1];
        let chat = task.chat_id->0;
        let entries = restored(tasks, uuids, n - 1);
        let jobs = restored_jobs(tasks, uuids, n - 1);
        let entries_now = restored(tasks, uuids, n);
        let jobs_now = restored_jobs(tasks, uuids, n);
        if entries.dom().contains(chat) {
            let i = choose|i: int| 0 <= i < n - 1 && (#[trigger] tasks[i]).chat_id == Some(chat);
            assert(tasks[i].chat_id != tasks[n - 1].chat_id);
        }
        if uuids[n - 1] is Some && jobs.dom().contains(uuids[n - 1]->0) {
            let i = choose|i: int| 0 <= i < n - 1 && #[trigger] uuids[i] == uuids[n - 1];
            assert(uuids[i] != uuids[n - 1]);
        }
        assert forall|c: i64| #[trigger] entries_now.dom().contains(c) implies job_fits(
            c,
            entries_now[c],
            jobs_now,
        ) by {
            if c != chat {
                assert(entries.dom().contains(c));
                assert(job_fits(c, entries[c], jobs));
            }
        }
        assert forall|c: i64| #[trigger] entries_now.dom().contains(c) implies exists|i: int|
            0 <= i < n && (#[trigger] tasks[i]).chat_id == Some(c) by {
            if c != chat {
                assert(entries.dom().contains(c));
            } else {
                assert(tasks[n - 1].chat_id == Some(c));
            }
        }
        assert forall|uuid: Uuid| #[trigger] jobs_now.dom().contains(uuid) implies
            entries_now.dom().contains(jobs_now[uuid].chat_id)
            && entries_now[jobs_now[uuid].chat_id].job_uuid == Some(uuid) && exists|i: int|
            0 <= i < n && #[trigger] uuids[i] == Some(uuid) by {
            if jobs.dom().contains(uuid) {
            } else {
                assert(uuids[n - 1] == Some(uuid));
            }
        }
    }
}

/// After a restart, the jobs that are loaded are the jobs of the chats.
pub proof fn law_restart_matches(tasks: Seq<JobHandlerTask>, uuids: Seq<Option<Uuid>>)
    requires
        all_named(tasks),
        jobs_loaded(tasks, uuids),
    ensures
        jobs_match(
            restored(tasks, uuids, tasks.len() as int),
            restored_jobs(tasks, uuids, tasks.len() as int),
        ),
{
    lemma_restored(tasks, uuids, tasks.len() as int);
}

/// The jobs that are loaded after a plan has been carried out. If it loads one, it is called
/// `fresh`.
pub open spec fn jobs_after(jobs: Map<Uuid, DailyJob>, plan: PlanView, fresh: Uuid) -> Map<
    Uuid,
    DailyJob,
> {
    let kept = match plan.unload {
        Some(uuid) => jobs.remove(uuid),
        None => jobs,
    };
    match plan.load {
        Some(job) => kept.insert(fresh, job),
        None => kept,
    }
}

/// What is registered after a plan has been carried out.
pub open spec fn registrations_after(
    registrations: Map<i64, RegistrationEntry>,
    plan: PlanView,
    fresh: Uuid,
) -> Map<i64, RegistrationEntry> {
    let loaded = if plan.load is Some {
        Some(fresh)
    } else {
        None
    };
    registrations.insert(plan.chat_id, settled(plan, loaded))
}

/// Whether a plan is one of those that orders lead to.
pub open spec fn is_plan(
    backend: Backend,
    registrations: Map<i64, RegistrationEntry>,
    task: JobHandlerTask,
    plan: PlanView,
) -> bool {
    let previous = registration_of(registrations, task.chat_id->0);
    &&& task.chat_id is Some
    &&& {
        ||| fills_row(task) && plan == adding(previous, task)
        ||| previous is Some && updatable(backend, previous, task) && plan == updating(
            previous->0,
            task,
        )
        ||| previous is Some && plan == deleting(previous->0, task)
        ||| previous is Some && plan == inserting(previous->0, task)
    }
}

/// Whatever an order changes, no job is lost track of and none is left behind: the jobs that are
/// loaded stay the jobs of the chats, each for the canteen and the time of its chat.
pub proof fn law_jobs_match(
    backend: Backend,
    registrations: Map<i64, RegistrationEntry>,
    jobs: Map<Uuid, DailyJob>,
    task: JobHandlerTask,
    plan: PlanView,
    fresh: Uuid,
)
    requires
        jobs_match(registrations, jobs),
        !jobs.dom().contains(fresh),
        is_plan(backend, registrations, task, plan),
    ensures
        jobs_match(
            registrations_after(registrations, plan, fresh),
            jobs_after(jobs, plan, fresh),
        ),
{
    let chat = task.chat_id->0;
    let after = registrations_after(registrations, plan, fresh);
    let jobs_now = jobs_after(jobs, plan, fresh);
    assert forall|c: i64| #[trigger] after.dom().contains(c) implies job_fits(
        c,
        after[c],
        jobs_now,
    ) by {
        if registrations.dom().contains(chat) {
            assert(job_fits(chat, registrations[chat], jobs));
        }
        if c != chat {
            assert(registrations.dom().contains(c));
            assert(job_fits(c, registrations[c], jobs));
        }
    }
    assert forall|uuid: Uuid| #[trigger] jobs_now.dom().contains(uuid) implies after.dom().contains(
        jobs_now[uuid].chat_id,
    ) && after[jobs_now[uuid].chat_id].job_uuid == Some(uuid) by {
        if plan.load is Some && uuid == fresh {
        } else {
            assert(jobs.dom().contains(uuid));
        }
    }
}

/// A chat that changes to another canteen keeps its time, and its job is exchanged for one that sends
/// the plan of the new canteen at that time.
pub proof fn law_other_canteen_same_time(
    backend: Backend,
    previous: RegistrationEntry,
    chat_id: i64,
    mensa_id: u8,
)
    requires
        previous.hour is Some ==> previous.minute is Some,
    ensures
        ({
            let order = other_mensa(chat_id, mensa_id);
            let plan = updating(previous, order);
            &&& updatable(backend, Some(previous), order)
            &&& plan.unload == previous.job_uuid
            &&& plan.load == job_at(chat_id, mensa_id, previous.hour, previous.minute)
            &&& plan.entry == RegistrationEntry { job_uuid: None, mensa_id, ..previous }
        }),
{
}

/// Only the order to remember a message with buttons changes which message that is.
pub proof fn law_callback_kept(
    registrations: Map<i64, RegistrationEntry>,
    task: JobHandlerTask,
    fresh: Uuid,
    chat: i64,
)
    requires
        task.chat_id is Some,
        registrations.dom().contains(task.chat_id->0),
        registrations.dom().contains(chat),
    ensures
        ({
            let previous = registrations[task.chat_id->0];
            let callback_after = |plan: PlanView| registrations_after(
                registrations,
                plan,
                fresh,
            )[chat].callback_id;
            &&& callback_after(adding(Some(previous), task)) == registrations[chat].callback_id
            &&& callback_after(updating(previous, task)) == registrations[chat].callback_id
            &&& callback_after(deleting(previous, task)) == registrations[chat].callback_id
            &&& callback_after(inserting(previous, task)) == if chat == task.chat_id->0 {
                task.callback_id
            } else {
                registrations[chat].callback_id
            }
        }),
{
}

} // verus!
