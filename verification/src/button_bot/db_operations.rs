//! What the bot with day buttons writes to its database, and what comes back from it.
use crate::button_bot::data_types::{JobHandlerTask, JobType};
use crate::text::owned;
use vstd::prelude::*;

verus! {

/// One row of the table of registrations.
#[derive(Debug, Copy, Clone, PartialEq, Eq, Structural)]
pub struct RegistrationRow {
    pub chat_id: i64,
    pub mensa_id: u8,
    pub hour: Option<u32>,
    pub minute: Option<u32>,
    pub last_callback_id: Option<i32>,
}

/// One statement that changes the table of registrations.
#[derive(Debug, Copy, Clone, PartialEq, Eq, Structural)]
pub enum DbChange {
    /// Enter a row, in place of the one that the chat has, if it has one. The new row names no
    /// message with buttons.
    Replace { chat_id: i64, mensa_id: u8, hour: u32, minute: u32 },
    /// Set the canteen of a chat.
    SetMensa { chat_id: i64, mensa_id: u8 },
    /// Set the hour of the daily message of a chat.
    SetHour { chat_id: i64, hour: u32 },
    /// Set the minute of the daily message of a chat.
    SetMinute { chat_id: i64, minute: u32 },
    /// Set the message with buttons of a chat.
    SetCallback { chat_id: i64, callback_id: i32 },
    /// Leave a chat without a daily message.
    ClearTime { chat_id: i64 },
}

/// The table after one statement. A row that is not there is not changed.
pub open spec fn stored(table: Map<i64, RegistrationRow>, change: DbChange) -> Map<
    i64,
    RegistrationRow,
> {
    match change {
        DbChange::Replace { chat_id, mensa_id, hour, minute } => table.insert(
            chat_id,
            RegistrationRow {
                chat_id,
                mensa_id,
                hour: Some(hour),
                minute: Some(minute),
                last_callback_id: None,
            },
        ),
        DbChange::SetMensa { chat_id, mensa_id } => if table.dom().contains(chat_id) {
            table.insert(chat_id, RegistrationRow { mensa_id, ..table[chat_id] })
        } else {
            table
        },
        DbChange::SetHour { chat_id, hour } => if table.dom().contains(chat_id) {
            table.insert(chat_id, RegistrationRow { hour: Some(hour), ..table[chat_id] })
        } else {
            table
        },
        DbChange::SetMinute { chat_id, minute } => if table.dom().contains(chat_id) {
            table.insert(chat_id, RegistrationRow { minute: Some(minute), ..table[chat_id] })
        } else {
            table
        },
        DbChange::SetCallback { chat_id, callback_id } => if table.dom().contains(chat_id) {
            table.insert(
                chat_id,
                RegistrationRow { last_callback_id: Some(callback_id), ..table[chat_id] },
            )
        } else {
            table
        },
        DbChange::ClearTime { chat_id } => if table.dom().contains(chat_id) {
            table.insert(chat_id, RegistrationRow { hour: None, minute: None, ..table[chat_id] })
        } else {
            table
        },
    }
}

/// The table after some statements, from the first to the last.
pub open spec fn stored_all(table: Map<i64, RegistrationRow>, changes: Seq<DbChange>) -> Map<
    i64,
    RegistrationRow,
>
    decreases changes.len(),
{
    if changes.len() == 0 {
        table
    } else {
        stored(stored_all(table, changes.drop_last()), changes.last())
    }
}

/// The SQL of a statement. Its parameters are the chat, and what is set.
pub open spec fn statement_text(change: DbChange) -> Seq<char> {
    match change {
        DbChange::Replace { .. } =>
            "replace into registrations (chat_id, mensa_id, hour, minute) values (?1, ?2, ?3, ?4)"@,
        DbChange::SetMensa { .. } =>
            "UPDATE registrations SET mensa_id = ?2 WHERE chat_id = ?1"@,
        DbChange::SetHour { .. } => "UPDATE registrations SET hour = ?2 WHERE chat_id = ?1"@,
        DbChange::SetMinute { .. } => "UPDATE registrations SET minute = ?2 WHERE chat_id = ?1"@,
        DbChange::SetCallback { .. } =>
            "UPDATE registrations SET last_callback_id = ?2 WHERE chat_id = ?1"@,
        DbChange::ClearTime { .. } =>
            "UPDATE registrations SET hour = NULL, minute = NULL WHERE chat_id = ?1"@,
    }
}

/// The SQL of a statement. Its parameters are the chat, and what is set.
pub fn statement(change: &DbChange) -> (r: String)
    ensures
        r@ == statement_text(*change),
{
    match change {
        DbChange::Replace { .. } => owned(
            "replace into registrations (chat_id, mensa_id, hour, minute) values (?1, ?2, ?3, ?4)",
        ),
        DbChange::SetMensa { .. } => owned(
            "UPDATE registrations SET mensa_id = ?2 WHERE chat_id = ?1",
        ),
        DbChange::SetHour { .. } => owned(
            "UPDATE registrations SET hour = ?2 WHERE chat_id = ?1",
        ),
        DbChange::SetMinute { .. } => owned(
            "UPDATE registrations SET minute = ?2 WHERE chat_id = ?1",
        ),
        DbChange::SetCallback { .. } => owned(
            "UPDATE registrations SET last_callback_id = ?2 WHERE chat_id = ?1",
        ),
        DbChange::ClearTime { .. } => owned(
            "UPDATE registrations SET hour = NULL, minute = NULL WHERE chat_id = ?1",
        ),
    }
}

/// The statements that write down what an order sets. An order that names no chat sets nothing.
pub open spec fn row_updates(task: JobHandlerTask) -> Seq<DbChange> {
    match task.chat_id {
        None => seq![],
        Some(chat_id) => (match task.mensa_id {
            Some(mensa_id) => seq![DbChange::SetMensa { chat_id, mensa_id }],
            None => seq![],
        }) + (match task.hour {
            Some(hour) => seq![DbChange::SetHour { chat_id, hour }],
            None => seq![],
        }) + (match task.minute {
            Some(minute) => seq![DbChange::SetMinute { chat_id, minute }],
            None => seq![],
        }) + (match task.callback_id {
            Some(callback_id) => seq![DbChange::SetCallback { chat_id, callback_id }],
            None => seq![],
        }),
    }
}

/// The statements that write down what an order sets.
pub fn update_db_row(data: &JobHandlerTask) -> (r: Vec<DbChange>)
    ensures
        r@ == row_updates(*data),
{
    let mut r: Vec<DbChange> = Vec::new();
    if let Some(chat_id) = data.chat_id {
        if let Some(mensa_id) = data.mensa_id {
            r.push(DbChange::SetMensa { chat_id, mensa_id });
        }
        if let Some(hour) = data.hour {
            r.push(DbChange::SetHour { chat_id, hour });
        }
        if let Some(minute) = data.minute {
            r.push(DbChange::SetMinute { chat_id, minute });
        }
        if let Some(callback_id) = data.callback_id {
            r.push(DbChange::SetCallback { chat_id, callback_id });
        }
    }
    r
}

/// Whether an order holds all that a new row needs.
pub open spec fn fills_row(task: JobHandlerTask) -> bool {
    task.chat_id is Some && task.mensa_id is Some && task.hour is Some && task.minute is Some
}

/// The statement that enters the chat of an order.
pub fn init_db_record(job_handler_task: &JobHandlerTask) -> (r: DbChange)
    requires
        fills_row(*job_handler_task),
    ensures
        r == (DbChange::Replace {
            chat_id: job_handler_task.chat_id->0,
            mensa_id: job_handler_task.mensa_id->0,
            hour: job_handler_task.hour->0,
            minute: job_handler_task.minute->0,
        }),
{
    DbChange::Replace {
        chat_id: job_handler_task.chat_id.unwrap(),
        mensa_id: job_handler_task.mensa_id.unwrap(),
        hour: job_handler_task.hour.unwrap(),
        minute: job_handler_task.minute.unwrap(),
    }
}

/// The statement that leaves a chat without a daily message.
pub fn task_db_kill_auto(chat_id: i64) -> (r: DbChange)
    ensures
        r == (DbChange::ClearTime { chat_id }),
{
    DbChange::ClearTime { chat_id }
}

/// The order that restores what a row holds.
pub open spec fn restoring(row: RegistrationRow) -> JobHandlerTask {
    JobHandlerTask {
        job_type: JobType::UpdateRegistration,
        chat_id: Some(row.chat_id),
        mensa_id: Some(row.mensa_id),
        hour: row.hour,
        minute: row.minute,
        callback_id: row.last_callback_id,
    }
}

/// The orders that restore what the rows of the table hold, in the order of the rows.
pub fn get_all_tasks_db(rows: &Vec<RegistrationRow>) -> (r: Vec<JobHandlerTask>)
    ensures
        r@ == rows@.map_values(|row: RegistrationRow| restoring(row)),
{
    let mut tasks: Vec<JobHandlerTask> = Vec::new();
    for i in 0..rows.len()
        invariant
            tasks@ == rows@.take(i as int).map_values(|row: RegistrationRow| restoring(row)),
    {
        let row = rows[i];
        tasks.push(
            JobHandlerTask {
                job_type: JobType::UpdateRegistration,
                chat_id: Some(row.chat_id),
                mensa_id: Some(row.mensa_id),
                hour: row.hour,
                minute: row.minute,
                callback_id: row.last_callback_id,
            },
        );
        assert(rows@.take(i + 1) == rows@.take(i as int).push(row));
    }
    assert(rows@.take(rows@.len() as int) == rows@);
    tasks
}

proof fn lemma_stored_push(
    table: Map<i64, RegistrationRow>,
    changes: Seq<DbChange>,
    change: DbChange,
)
    ensures
        stored_all(table, changes.push(change)) == stored(stored_all(table, changes), change),
{
    assert(changes.push(change).drop_last() == changes);
}

/// The table after an order has been written down: where the chat has a row, it holds what the order
/// sets and keeps the rest, and no other row changes. A chat without a row gets none.
pub proof fn law_update_sets_given(table: Map<i64, RegistrationRow>, task: JobHandlerTask)
    requires
        task.chat_id is Some,
    ensures
        ({
            let chat = task.chat_id->0;
            let row = table[chat];
            stored_all(table, row_updates(task)) == if table.dom().contains(chat) {
                table.insert(
                    chat,
                    RegistrationRow {
                        chat_id: row.chat_id,
                        mensa_id: if task.mensa_id is Some {
                            task.mensa_id->0
                        } else {
                            row.mensa_id
                        },
                        hour: if task.hour is Some {
                            task.hour
                        } else {
                            row.hour
                        },
                        minute: if task.minute is Some {
                            task.minute
                        } else {
                            row.minute
                        },
                        last_callback_id: if task.callback_id is Some {
                            task.callback_id
                        } else {
                            row.last_callback_id
                        },
                    },
                )
            } else {
                table
            }
        }),
{
    let chat_id = task.chat_id->0;
    let s0 = Seq::<DbChange>::empty();
    assert(stored_all(table, s0) == table);
    let s1 = match task.mensa_id {
        Some(mensa_id) => s0.push(DbChange::SetMensa { chat_id, mensa_id }),
        None => s0,
    };
    if let Some(mensa_id) = task.mensa_id {
        lemma_stored_push(table, s0, DbChange::SetMensa { chat_id, mensa_id });
    }
    let s2 = match task.hour {
        Some(hour) => s1.push(DbChange::SetHour { chat_id, hour }),
        None => s1,
    };
    if let Some(hour) = task.hour {
        lemma_stored_push(table, s1, DbChange::SetHour { chat_id, hour });
    }
    let s3 = match task.minute {
        Some(minute) => s2.push(DbChange::SetMinute { chat_id, minute }),
        None => s2,
    };
    if let Some(minute) = task.minute {
        lemma_stored_push(table, s2, DbChange::SetMinute { chat_id, minute });
    }
    let s4 = match task.callback_id {
        Some(callback_id) => s3.push(DbChange::SetCallback { chat_id, callback_id }),
        None => s3,
    };
    if let Some(callback_id) = task.callback_id {
        lemma_stored_push(table, s3, DbChange::SetCallback { chat_id, callback_id });
    }
    assert(row_updates(task) == s4);
    if table.dom().contains(chat_id) {
        assert(table == table.insert(chat_id, table[chat_id]));
    }
}

} // verus!
