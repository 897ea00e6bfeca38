//! What is written to the database of registrations, and what comes back from it.
use crate::data_types::{JobHandlerTask, UpdateRegistrationTask};
use crate::ordered::{ascending_u32, keys_u32};
use crate::text::{dec, decimal, owned};
use std::collections::BTreeMap;
use vstd::prelude::*;

verus! {

/// One row of the table of registrations.
#[derive(Debug, Copy, Clone, PartialEq, Eq, Structural)]
pub struct RegistrationRow {
    pub chat_id: i64,
    pub mensa_id: u32,
    pub hour: Option<u32>,
    pub minute: Option<u32>,
}

/// One statement that changes the table of registrations.
#[derive(Debug, Copy, Clone, PartialEq, Eq, Structural)]
pub enum DbChange {
    /// Enter a row, in place of the one that the chat has, if it has one.
    Replace(RegistrationRow),
    /// Set the canteen of a chat.
    SetMensa { chat_id: i64, mensa_id: u32 },
    /// Set the hour of the daily message of a chat.
    SetHour { chat_id: i64, hour: u32 },
    /// Set the minute of the daily message of a chat.
    SetMinute { chat_id: i64, minute: u32 },
    /// Leave a chat without a daily message.
    ClearTime { chat_id: i64 },
}

/// The table after one statement. A row that is not there is not changed.
pub open spec fn stored(table: Map<i64, RegistrationRow>, change: DbChange) -> Map<
    i64,
    RegistrationRow,
> {
    match change {
        DbChange::Replace(row) => table.insert(row.chat_id, row),
        DbChange::SetMensa { chat_id, mensa_id } => if table.dom().contains(chat_id) {
            table.insert(chat_id, RegistrationRow { mensa_id, ..table[chat_id] })
        } else {
            table
        },
        DbChange::SetHour { chat_id, hour } => if table.dom().contains(chat_id) {
            table.insert(chat_id, RegistrationRow { hour: Some(hour), ..table[chat_id] })
        } else {
            table
        },
        DbChange::SetMinute { chat_id, minute } => if table.dom().contains(chat_id) {
            table.insert(chat_id, RegistrationRow { minute: Some(minute), ..table[chat_id] })
        } else {
            table
        },
        DbChange::ClearTime { chat_id } => if table.dom().contains(chat_id) {
            table.insert(chat_id, RegistrationRow { hour: None, minute: None, ..table[chat_id] })
        } else {
            table
        },
    }
}

/// The table after some statements, from the first to the last.
pub open spec fn stored_all(table: Map<i64, RegistrationRow>, changes: Seq<DbChange>) -> Map<
    i64,
    RegistrationRow,
>
    decreases changes.len(),
{
    if changes.len() == 0 {
        table
    } else {
        stored(stored_all(table, changes.drop_last()), changes.last())
    }
}

/// The SQL of a statement. Its parameters are the chat, and what is set.
pub open spec fn statement_text(change: DbChange) -> Seq<char> {
    match change {
        DbChange::Replace(_) =>
            "replace into registrations (chat_id, mensa_id, hour, minute) values (?1, ?2, ?3, ?4)"@,
        DbChange::SetMensa { .. } =>
            "UPDATE registrations SET mensa_id = ?2 WHERE chat_id = ?1"@,
        DbChange::SetHour { .. } => "UPDATE registrations SET hour = ?2 WHERE chat_id = ?1"@,
        DbChange::SetMinute { .. } => "UPDATE registrations SET minute = ?2 WHERE chat_id = ?1"@,
        DbChange::ClearTime { .. } =>
            "UPDATE registrations SET hour = NULL, minute = NULL WHERE chat_id = ?1"@,
    }
}

/// The SQL of a statement. Its parameters are the chat, and what is set.
pub fn statement(change: &DbChange) -> (r: String)
    ensures
        r@ == statement_text(*change),
{
    match change {
        DbChange::Replace(_) => owned(
            "replace into registrations (chat_id, mensa_id, hour, minute) values (?1, ?2, ?3, ?4)",
        ),
        DbChange::SetMensa { .. } => owned(
            "UPDATE registrations SET mensa_id = ?2 WHERE chat_id = ?1",
        ),
        DbChange::SetHour { .. } => owned(
            "UPDATE registrations SET hour = ?2 WHERE chat_id = ?1",
        ),
        DbChange::SetMinute { .. } => owned(
            "UPDATE registrations SET minute = ?2 WHERE chat_id = ?1",
        ),
        DbChange::ClearTime { .. } => owned(
            "UPDATE registrations SET hour = NULL, minute = NULL WHERE chat_id = ?1",
        ),
    }
}

/// The statements that write down what an order sets. An order that names no chat sets nothing.
pub open spec fn row_updates(
    chat: Option<i64>,
    mensa: Option<u32>,
    hour: Option<u32>,
    minute: Option<u32>,
) -> Seq<DbChange> {
    match chat {
        None => seq![],
        Some(chat_id) => (match mensa {
            Some(mensa_id) => seq![DbChange::SetMensa { chat_id, mensa_id }],
            None => seq![],
        }) + (match hour {
            Some(hour) => seq![DbChange::SetHour { chat_id, hour }],
            None => seq![],
        }) + (match minute {
            Some(minute) => seq![DbChange::SetMinute { chat_id, minute }],
            None => seq![],
        }),
    }
}

/// The statements that write down what an order sets.
pub fn update_db_row(data: &JobHandlerTask) -> (r: Vec<DbChange>)
    ensures
        r@ == row_updates(data.chat_id, data.mensa_id, data.hour, data.minute),
{
    let mut r: Vec<DbChange> = Vec::new();
    if let Some(chat_id) = data.chat_id {
        if let Some(mensa_id) = data.mensa_id {
            r.push(DbChange::SetMensa { chat_id, mensa_id });
        }
        if let Some(hour) = data.hour {
            r.push(DbChange::SetHour { chat_id, hour });
        }
        if let Some(minute) = data.minute {
            r.push(DbChange::SetMinute { chat_id, minute });
        }
    }
    r
}

/// The statement that leaves a chat without a daily message.
pub fn task_db_kill_auto(chat_id: i64) -> (r: DbChange)
    ensures
        r == (DbChange::ClearTime { chat_id }),
{
    DbChange::ClearTime { chat_id }
}

/// Whether an order holds all that a new row needs.
pub open spec fn fills_row(task: JobHandlerTask) -> bool {
    task.chat_id is Some && task.mensa_id is Some && task.hour is Some && task.minute is Some
}

/// The statement that enters the chat of an order.
pub fn init_db_record(job_handler_task: &JobHandlerTask) -> (r: DbChange)
    requires
        fills_row(*job_handler_task),
    ensures
        r == DbChange::Replace(
            RegistrationRow {
                chat_id: job_handler_task.chat_id->0,
                mensa_id: job_handler_task.mensa_id->0,
                hour: job_handler_task.hour,
                minute: job_handler_task.minute,
            },
        ),
{
    DbChange::Replace(
        RegistrationRow {
            chat_id: job_handler_task.chat_id.unwrap(),
            mensa_id: job_handler_task.mensa_id.unwrap(),
            hour: job_handler_task.hour,
            minute: job_handler_task.minute,
        },
    )
}

/// The order that restores what a row holds.
pub open spec fn restoring(row: RegistrationRow) -> JobHandlerTask {
    (UpdateRegistrationTask {
        chat_id: row.chat_id,
        mensa_id: Some(row.mensa_id),
        hour: row.hour,
        minute: row.minute,
    }).order()
}

/// The orders that restore what the rows of the table hold, in the order of the rows.
pub fn get_all_user_registrations_db(rows: &Vec<RegistrationRow>) -> (r: Vec<JobHandlerTask>)
    ensures
        r@ == rows@.map_values(|row: RegistrationRow| restoring(row)),
{
    let mut tasks: Vec<JobHandlerTask> = Vec::new();
    for i in 0..rows.len()
        invariant
            tasks@ == rows@.take(i as int).map_values(|row: RegistrationRow| restoring(row)),
    {
        let row = rows[i];
        let task: JobHandlerTask = JobHandlerTask::from(
            UpdateRegistrationTask {
                chat_id: row.chat_id,
                mensa_id: Some(row.mensa_id),
                hour: row.hour,
                minute: row.minute,
            },
        );
        tasks.push(task);
        assert(rows@.take(i + 1) == rows@.take(i as int).push(row));
    }
    assert(rows@.take(rows@.len() as int) == rows@);
    tasks
}

/// The rows of the table of canteens: number and name of each, by number.
pub fn init_mensa_id_db(mensen: &BTreeMap<u32, String>) -> (r: Vec<(String, String)>)
    ensures
        exists|keys: Seq<u32>|
            {
                &&& #[trigger] ascending_u32(keys, mensen@.dom())
                &&& r@.len() == keys.len()
                &&& forall|i: int|
                    0 <= i < keys.len() ==> (#[trigger] r@[i]).0@ == dec(keys[i] as nat) && r@[i].1@
                        == mensen@[keys[i]]@
            },
{
    let keys = keys_u32(mensen);
    let mut r: Vec<(String, String)> = Vec::new();
    for i in 0..keys.len()
        invariant
            ascending_u32(keys@, mensen@.dom()),
            r@.len() == i,
            forall|j: int|
                0 <= j < i ==> (#[trigger] r@[j]).0@ == dec(keys@[j] as nat) && r@[j].1@
                    == mensen@[keys@[j]]@,
    {
        let id = keys[i];
        assert(keys@.contains(id));
        match mensen.get(&id) {
            Some(name) => {
                r.push((decimal(id as u64), owned(name.as_str())));
            },
            None => {},
        }
    }
    assert(ascending_u32(keys@, mensen@.dom()));
    r
}

proof fn lemma_stored_none(table: Map<i64, RegistrationRow>)
    ensures
        stored_all(table, Seq::empty()) == table,
{
}

proof fn lemma_stored_push(
    table: Map<i64, RegistrationRow>,
    changes: Seq<DbChange>,
    change: DbChange,
)
    ensures
        stored_all(table, changes.push(change)) == stored(stored_all(table, changes), change),
{
    assert(changes.push(change).drop_last() == changes);
}

/// The table after an order has been written down: where the chat has a row, it holds what the order
/// sets and keeps the rest, and no other row changes. A chat without a row gets none.
pub proof fn law_update_sets_given(
    table: Map<i64, RegistrationRow>,
    chat: i64,
    mensa: Option<u32>,
    hour: Option<u32>,
    minute: Option<u32>,
)
    ensures
        stored_all(table, row_updates(Some(chat), mensa, hour, minute)) == if table.dom().contains(
            chat,
        ) {
            table.insert(
                chat,
                RegistrationRow {
                    chat_id: table[chat].chat_id,
                    mensa_id: if mensa is Some {
                        mensa->0
                    } else {
                        table[chat].mensa_id
                    },
                    hour: if hour is Some {
                        hour
                    } else {
                        table[chat].hour
                    },
                    minute: if minute is Some {
                        minute
                    } else {
                        table[chat].minute
                    },
                },
            )
        } else {
            table
        },
{
    let s0 = Seq::<DbChange>::empty();
    lemma_stored_none(table);
    let s1 = match mensa {
        Some(mensa_id) => s0.push(DbChange::SetMensa { chat_id: chat, mensa_id }),
        None => s0,
    };
    if mensa is Some {
        lemma_stored_push(table, s0, DbChange::SetMensa { chat_id: chat, mensa_id: mensa->0 });
    }
    let s2 = match hour {
        Some(hour) => s1.push(DbChange::SetHour { chat_id: chat, hour }),
        None => s1,
    };
    if hour is Some {
        lemma_stored_push(table, s1, DbChange::SetHour { chat_id: chat, hour: hour->0 });
    }
    let s3 = match minute {
        Some(minute) => s2.push(DbChange::SetMinute { chat_id: chat, minute }),
        None => s2,
    };
    if minute is Some {
        lemma_stored_push(table, s2, DbChange::SetMinute { chat_id: chat, minute: minute->0 });
    }
    assert(row_updates(Some(chat), mensa, hour, minute) == s3);
    if table.dom().contains(chat) {
        assert(table == table.insert(chat, table[chat]));
    }
}

/// To write an order down twice is to write it down once.
pub proof fn law_update_again(
    table: Map<i64, RegistrationRow>,
    chat: i64,
    mensa: Option<u32>,
    hour: Option<u32>,
    minute: Option<u32>,
)
    ensures
        ({
            let changes = row_updates(Some(chat), mensa, hour, minute);
            stored_all(stored_all(table, changes), changes) == stored_all(table, changes)
        }),
{
    let changes = row_updates(Some(chat), mensa, hour, minute);
    law_update_sets_given(table, chat, mensa, hour, minute);
    law_update_sets_given(stored_all(table, changes), chat, mensa, hour, minute);
}

/// Whatever is written down of a chat before it is entered is gone once it is.
pub proof fn law_entering_overrides(
    table: Map<i64, RegistrationRow>,
    row: RegistrationRow,
    mensa: Option<u32>,
    hour: Option<u32>,
    minute: Option<u32>,
)
    ensures
        stored(
            stored_all(table, row_updates(Some(row.chat_id), mensa, hour, minute)),
            DbChange::Replace(row),
        ) == stored(table, DbChange::Replace(row)),
{
    law_update_sets_given(table, row.chat_id, mensa, hour, minute);
}

} // verus!
