//! The statements for the database, on a database in memory.
use rusqlite::Connection;
use std::collections::BTreeMap;
use stuwe_telegram_rs::button_bot;
use stuwe_telegram_rs::data_types::{JobHandlerTask, RegisterTask, UpdateRegistrationTask};
use stuwe_telegram_rs::db_operations::{
    get_all_user_registrations_db, init_db_record, init_mensa_id_db, statement, task_db_kill_auto,
    update_db_row, DbChange, RegistrationRow,
};

fn open() -> Connection {
    let conn = Connection::open_in_memory().unwrap();
    conn.execute(
        "create table registrations (chat_id integer not null unique primary key, mensa_id integer not null, hour integer, minute integer, last_callback_id integer)",
        [],
    )
    .unwrap();
    conn
}

fn execute(conn: &Connection, change: &DbChange) {
    let sql = statement(change);
    let changed = match *change {
        DbChange::Replace(row) => {
            conn.execute(&sql, (row.chat_id, row.mensa_id, row.hour, row.minute))
        }
        DbChange::SetMensa { chat_id, mensa_id } => conn.execute(&sql, (chat_id, mensa_id)),
        DbChange::SetHour { chat_id, hour } => conn.execute(&sql, (chat_id, hour)),
        DbChange::SetMinute { chat_id, minute } => conn.execute(&sql, (chat_id, minute)),
        DbChange::ClearTime { chat_id } => conn.execute(&sql, (chat_id,)),
    };
    changed.unwrap();
}

fn rows(conn: &Connection) -> Vec<RegistrationRow> {
    let mut stmt = conn
        .prepare("SELECT chat_id, mensa_id, hour, minute FROM registrations order by chat_id")
        .unwrap();
    let rows = stmt
        .query_map([], |row| {
            Ok(RegistrationRow {
                chat_id: row.get(0)?,
                mensa_id: row.get(1)?,
                hour: row.get(2)?,
                minute: row.get(3)?,
            })
        })
        .unwrap();
    rows.map(|row| row.unwrap()).collect()
}

fn row(chat_id: i64, mensa_id: u32, time: Option<(u32, u32)>) -> RegistrationRow {
    RegistrationRow { chat_id, mensa_id, hour: time.map(|t| t.0), minute: time.map(|t| t.1) }
}

fn update(chat_id: i64, mensa_id: Option<u32>, hour: Option<u32>, minute: Option<u32>) -> JobHandlerTask {
    UpdateRegistrationTask { chat_id, mensa_id, hour, minute }.into()
}

#[test]
fn rows_are_entered_and_replaced() {
    let conn = open();
    let enter = |chat_id, mensa_id, hour, minute| {
        let task: JobHandlerTask = RegisterTask { chat_id, mensa_id, hour, minute }.into();
        execute(&conn, &init_db_record(&task));
    };
    enter(1, 106, 6, 0);
    enter(2, 118, 7, 30);
    enter(1, 115, 8, 15);
    assert_eq!(rows(&conn), vec![row(1, 115, Some((8, 15))), row(2, 118, Some((7, 30)))]);
}

#[test]
fn rows_are_updated_as_far_as_given() {
    let conn = open();
    execute(&conn, &DbChange::Replace(row(1, 106, Some((6, 0)))));
    execute(&conn, &DbChange::Replace(row(2, 106, None)));
    for task in [
        update(1, Some(118), None, None),
        update(2, None, Some(12), Some(45)),
        update(3, Some(1), Some(1), Some(1)),
    ] {
        for change in update_db_row(&task) {
            execute(&conn, &change);
        }
    }
    assert_eq!(rows(&conn), vec![row(1, 118, Some((6, 0))), row(2, 106, Some((12, 45)))]);
}

#[test]
fn times_are_cleared() {
    let conn = open();
    execute(&conn, &DbChange::Replace(row(1, 106, Some((6, 0)))));
    execute(&conn, &DbChange::Replace(row(2, 106, Some((6, 0)))));
    execute(&conn, &task_db_kill_auto(1));
    execute(&conn, &task_db_kill_auto(3));
    assert_eq!(rows(&conn), vec![row(1, 106, None), row(2, 106, Some((6, 0)))]);
}

#[test]
fn update_statements() {
    assert_eq!(update_db_row(&update(1, None, None, None)), vec![]);
    assert_eq!(
        update_db_row(&update(1, Some(2), Some(3), Some(4))),
        vec![
            DbChange::SetMensa { chat_id: 1, mensa_id: 2 },
            DbChange::SetHour { chat_id: 1, hour: 3 },
            DbChange::SetMinute { chat_id: 1, minute: 4 },
        ]
    );
    let mut nobody = update(1, Some(2), None, None);
    nobody.chat_id = None;
    assert_eq!(update_db_row(&nobody), vec![]);
}

#[test]
fn updating_again_changes_nothing() {
    let conn = open();
    execute(&conn, &DbChange::Replace(row(1, 106, None)));
    let task = update(1, Some(118), Some(7), Some(8));
    for _ in 0..2 {
        for change in update_db_row(&task) {
            execute(&conn, &change);
        }
        assert_eq!(rows(&conn), vec![row(1, 118, Some((7, 8)))]);
    }
}

#[test]
fn rows_become_orders() {
    assert_eq!(
        get_all_user_registrations_db(&vec![row(2, 106, Some((6, 0))), row(1, 118, None)]),
        vec![update(2, Some(106), Some(6), Some(0)), update(1, Some(118), None, None)]
    );
}

#[test]
fn canteens_become_rows() {
    let mensen = BTreeMap::from([(118, "B".to_string()), (9, "A".to_string())]);
    assert_eq!(
        init_mensa_id_db(&mensen),
        vec![("9".to_string(), "A".to_string()), ("118".to_string(), "B".to_string())]
    );
}

#[test]
fn messages_with_buttons_are_stored() {
    let conn = open();
    let run = |change: &button_bot::db_operations::DbChange| {
        let sql = button_bot::db_operations::statement(change);
        let changed = match *change {
            button_bot::db_operations::DbChange::Replace { chat_id, mensa_id, hour, minute } => {
                conn.execute(&sql, (chat_id, mensa_id, hour, minute))
            }
            button_bot::db_operations::DbChange::SetMensa { chat_id, mensa_id } => {
                conn.execute(&sql, (chat_id, mensa_id))
            }
            button_bot::db_operations::DbChange::SetHour { chat_id, hour } => {
                conn.execute(&sql, (chat_id, hour))
            }
            button_bot::db_operations::DbChange::SetMinute { chat_id, minute } => {
                conn.execute(&sql, (chat_id, minute))
            }
            button_bot::db_operations::DbChange::SetCallback { chat_id, callback_id } => {
                conn.execute(&sql, (chat_id, callback_id))
            }
            button_bot::db_operations::DbChange::ClearTime { chat_id } => {
                conn.execute(&sql, (chat_id,))
            }
        };
        changed.unwrap();
    };
    let read = || {
        conn.query_row(
            "select mensa_id, hour, minute, last_callback_id from registrations where chat_id = 1",
            [],
            |row| {
                Ok((
                    row.get::<_, u8>(0)?,
                    row.get::<_, Option<u32>>(1)?,
                    row.get::<_, Option<u32>>(2)?,
                    row.get::<_, Option<i32>>(3)?,
                ))
            },
        )
        .unwrap()
    };
    let mut task = button_bot::data_types::JobHandlerTask {
        job_type: button_bot::data_types::JobType::Register,
        chat_id: Some(1),
        mensa_id: Some(106),
        hour: Some(6),
        minute: Some(0),
        callback_id: Some(33),
    };
    run(&button_bot::db_operations::init_db_record(&task));
    assert_eq!(read(), (106, Some(6), Some(0), None));
    task.mensa_id = Some(111);
    task.hour = Some(9);
    for change in button_bot::db_operations::update_db_row(&task) {
        run(&change);
    }
    assert_eq!(read(), (111, Some(9), Some(0), Some(33)));
    run(&button_bot::db_operations::task_db_kill_auto(1));
    assert_eq!(read(), (111, None, None, Some(33)));
    run(&button_bot::db_operations::init_db_record(&task));
    assert_eq!(read(), (111, Some(9), Some(0), None));
}
