//! The task scheduler.
use std::collections::BTreeMap;
use stuwe_telegram_rs::calendar::time_of_day_now;
use stuwe_telegram_rs::data_types::stuwe_data_types::CanteenMealDiff;
use stuwe_telegram_rs::data_types::{
    Backend, BroadcastUpdateTask, CampusDualGrade, CampusDualSignupOption, JobHandlerTask, JobType,
    QueryRegistrationTask, RegisterTask, RegistrationEntry, UnregisterTask, UpdateRegistrationTask,
};
use stuwe_telegram_rs::db_operations::{DbChange, RegistrationRow};
use stuwe_telegram_rs::shared_main::{
    cron_expression, get_user_registration, insert_user_registration, job_schedule,
    load_daily_job, load_job, load_job_at, DailyJob, LoadJob,
};
use stuwe_telegram_rs::task_scheduler_funcs::{
    announces_changes, await_handle_mealplan_upd, change_message, chats_due,
    check_notify_campusdual_grades_signups, handle_add_registration_task,
    handle_broadcast_update_task, handle_delete_registration_task, handle_query_registration_task,
    handle_update_registration_task, load_jobs_from_db, mealplan_updates_url, notice_sent,
    run_task_scheduler, settle, update_due, CampusDualNews, CampusDualNotice, SchedulerPlan,
    SchedulerStep,
};
use uuid::Uuid;

const CHAT: i64 = 42;

fn uuid(n: u128) -> Uuid {
    Uuid::from_u128(n)
}

fn entry(job: Option<u128>, mensa_id: u32, time: Option<(u32, u32)>) -> RegistrationEntry {
    RegistrationEntry {
        job_uuid: job.map(uuid),
        mensa_id,
        hour: time.map(|t| t.0),
        minute: time.map(|t| t.1),
    }
}

fn update(mensa_id: Option<u32>, time: Option<(u32, u32)>) -> JobHandlerTask {
    UpdateRegistrationTask {
        chat_id: CHAT,
        mensa_id,
        hour: time.map(|t| t.0),
        minute: time.map(|t| t.1),
    }
    .into()
}

fn job(mensa_id: u32, hour: u32, minute: u32) -> DailyJob {
    DailyJob { chat_id: CHAT, mensa_id, hour, minute }
}

fn known() -> BTreeMap<i64, RegistrationEntry> {
    BTreeMap::from([(CHAT, entry(Some(1), 106, Some((6, 0)))), (7, entry(None, 118, None))])
}

#[test]
fn adding_a_new_chat() {
    let task: JobHandlerTask = RegisterTask { chat_id: CHAT, mensa_id: 106, hour: 6, minute: 0 }.into();
    assert_eq!(
        handle_add_registration_task(&BTreeMap::new(), &task),
        SchedulerPlan {
            chat_id: CHAT,
            unload: None,
            load: Some(job(106, 6, 0)),
            entry: entry(None, 106, Some((6, 0))),
            changes: vec![DbChange::Replace(RegistrationRow {
                chat_id: CHAT,
                mensa_id: 106,
                hour: Some(6),
                minute: Some(0),
            })],
        }
    );
}

#[test]
fn adding_a_known_chat_unloads_its_job() {
    let task: JobHandlerTask = RegisterTask { chat_id: CHAT, mensa_id: 115, hour: 7, minute: 5 }.into();
    let plan = handle_add_registration_task(&known(), &task);
    assert_eq!(plan.unload, Some(uuid(1)));
    assert_eq!(plan.load, Some(job(115, 7, 5)));
}

#[test]
fn updating_the_time() {
    let plan = handle_update_registration_task(&known(), &update(None, Some((12, 30)))).unwrap();
    assert_eq!(
        plan,
        SchedulerPlan {
            chat_id: CHAT,
            unload: Some(uuid(1)),
            load: Some(job(106, 12, 30)),
            entry: entry(None, 106, Some((12, 30))),
            changes: vec![
                DbChange::SetHour { chat_id: CHAT, hour: 12 },
                DbChange::SetMinute { chat_id: CHAT, minute: 30 },
            ],
        }
    );
}

#[test]
fn updating_the_canteen_keeps_the_time() {
    let plan = handle_update_registration_task(&known(), &update(Some(118), None)).unwrap();
    assert_eq!(
        plan,
        SchedulerPlan {
            chat_id: CHAT,
            unload: Some(uuid(1)),
            load: Some(job(118, 6, 0)),
            entry: entry(None, 118, Some((6, 0))),
            changes: vec![DbChange::SetMensa { chat_id: CHAT, mensa_id: 118 }],
        }
    );
}

#[test]
fn updating_the_canteen_without_a_daily_message() {
    let registrations = BTreeMap::from([(CHAT, entry(None, 106, None))]);
    let plan = handle_update_registration_task(&registrations, &update(Some(118), None)).unwrap();
    assert_eq!(plan.load, None);
    assert_eq!(plan.entry, entry(None, 118, None));
}

#[test]
fn updating_nothing_keeps_the_job() {
    let plan = handle_update_registration_task(&known(), &update(None, None)).unwrap();
    assert_eq!(
        plan,
        SchedulerPlan {
            chat_id: CHAT,
            unload: None,
            load: None,
            entry: entry(Some(1), 106, Some((6, 0))),
            changes: vec![],
        }
    );
}

#[test]
fn updating_an_unknown_chat() {
    assert_eq!(
        handle_update_registration_task(&BTreeMap::new(), &update(Some(118), None)),
        None
    );
    assert_eq!(
        run_task_scheduler(&BTreeMap::new(), &update(Some(118), None)),
        SchedulerStep::Notify {
            chat_id: CHAT,
            text: "Bitte zuerst /start ausführen".to_string(),
        }
    );
}

#[test]
fn deleting_keeps_the_canteen() {
    let task: JobHandlerTask = UnregisterTask { chat_id: CHAT }.into();
    assert_eq!(
        handle_delete_registration_task(&known(), &task),
        SchedulerPlan {
            chat_id: CHAT,
            unload: Some(uuid(1)),
            load: None,
            entry: entry(None, 106, None),
            changes: vec![DbChange::ClearTime { chat_id: CHAT }],
        }
    );
}

#[test]
fn settling_names_the_job() {
    let mut registrations = known();
    let plan = handle_update_registration_task(&registrations, &update(None, Some((12, 30)))).unwrap();
    settle(&mut registrations, &plan, Some(uuid(9)));
    assert_eq!(registrations[&CHAT], entry(Some(9), 106, Some((12, 30))));
    assert_eq!(registrations[&7], entry(None, 118, None));
    let plan = handle_update_registration_task(&registrations, &update(None, None)).unwrap();
    settle(&mut registrations, &plan, None);
    assert_eq!(registrations[&CHAT], entry(Some(9), 106, Some((12, 30))));
}

#[test]
fn stopping_and_resuming() {
    let mut registrations = known();
    let stop: JobHandlerTask = UnregisterTask { chat_id: CHAT }.into();
    let plan = handle_delete_registration_task(&registrations, &stop);
    settle(&mut registrations, &plan, None);
    assert_eq!(registrations[&CHAT], entry(None, 106, None));
    let plan = handle_update_registration_task(&registrations, &update(None, Some((6, 0)))).unwrap();
    assert_eq!((plan.unload, plan.load), (None, Some(job(106, 6, 0))));
    settle(&mut registrations, &plan, Some(uuid(2)));
    assert_eq!(registrations[&CHAT], entry(Some(2), 106, Some((6, 0))));
}

#[test]
fn registrations_are_looked_up() {
    let mut registrations = known();
    assert_eq!(get_user_registration(&registrations, 8), None);
    insert_user_registration(&mut registrations, 8, entry(None, 1, None));
    assert_eq!(get_user_registration(&registrations, 8), Some(entry(None, 1, None)));
    let task: JobHandlerTask = QueryRegistrationTask { chat_id: 7 }.into();
    assert_eq!(
        handle_query_registration_task(&registrations, &task),
        Some(entry(None, 118, None))
    );
    assert_eq!(
        run_task_scheduler(&registrations, &task),
        SchedulerStep::Answer(Some(entry(None, 118, None)))
    );
}

#[test]
fn orders_are_taken_by_kind() {
    let registrations = known();
    let add: JobHandlerTask = RegisterTask { chat_id: 9, mensa_id: 106, hour: 6, minute: 0 }.into();
    assert_eq!(
        run_task_scheduler(&registrations, &add),
        SchedulerStep::Carry(handle_add_registration_task(&registrations, &add))
    );
    let change = update(None, Some((1, 2)));
    assert_eq!(
        run_task_scheduler(&registrations, &change),
        SchedulerStep::Carry(handle_update_registration_task(&registrations, &change).unwrap())
    );
    let stop: JobHandlerTask = UnregisterTask { chat_id: CHAT }.into();
    assert_eq!(
        run_task_scheduler(&registrations, &stop),
        SchedulerStep::Carry(handle_delete_registration_task(&registrations, &stop))
    );
}

#[test]
fn restart_restores_registrations() {
    let tasks: Vec<JobHandlerTask> = vec![
        update(Some(106), Some((6, 0))),
        UpdateRegistrationTask { chat_id: 7, mensa_id: Some(118), hour: None, minute: None }.into(),
    ];
    assert_eq!(load_jobs_from_db(&tasks, &vec![Some(uuid(1)), None]), known());
}

#[test]
fn schedules() {
    assert_eq!(cron_expression(-1, 22, 30), "0 30 22 * * Sun,Mon,Tue,Wed,Thu");
    assert_eq!(cron_expression(0, 4, 5), "0 5 4 * * Mon,Tue,Wed,Thu,Fri");
    assert_eq!(cron_expression(1, 0, 0), "0 0 0 * * Tue,Wed,Thu,Fri,Sat");
    for (hour, minute, offset, schedule) in [
        (6, 5, 7200, "0 5 4 * * Mon,Tue,Wed,Thu,Fri"),
        (0, 30, 7200, "0 30 22 * * Sun,Mon,Tue,Wed,Thu"),
        (2, 0, 7200, "0 0 0 * * Mon,Tue,Wed,Thu,Fri"),
        (1, 59, 7200, "0 59 23 * * Sun,Mon,Tue,Wed,Thu"),
        (23, 30, -3600, "0 30 0 * * Tue,Wed,Thu,Fri,Sat"),
        (22, 59, -3600, "0 59 23 * * Mon,Tue,Wed,Thu,Fri"),
        (0, 0, 0, "0 0 0 * * Mon,Tue,Wed,Thu,Fri"),
    ] {
        assert_eq!(job_schedule(hour, minute, offset), schedule);
    }
    assert_eq!(load_job_at(job(106, 6, 5), None), LoadJob::NoSuchTime);
}

#[test]
fn jobs_run_on_local_working_days() {
    let names = ["Mon", "Tue", "Wed", "Thu", "Fri", "Sat", "Sun"];
    for (hour, minute) in [(0, 0), (0, 30), (6, 0), (12, 0), (23, 30), (23, 59)] {
        for ahead in [-12, -9, -1, 0, 1, 2, 9, 14] {
            let schedule = job_schedule(hour, minute, ahead * 3600);
            let fields: Vec<&str> = schedule.split(' ').collect();
            let utc_minute: i32 = fields[1].parse().unwrap();
            let utc_hour: i32 = fields[2].parse().unwrap();
            for (weekday, name) in names.iter().enumerate() {
                // Minutes of local time since the start of a week that begins on a Monday.
                let local = weekday as i32 * 1440 + utc_hour * 60 + utc_minute + ahead * 60;
                let runs = fields[5].split(',').any(|day| day == *name);
                assert_eq!(local.rem_euclid(1440), hour as i32 * 60 + minute as i32);
                assert_eq!(runs, local.rem_euclid(7 * 1440) / 1440 < 5);
            }
        }
    }
}

#[test]
fn jobs_are_loaded_for_times_only() {
    assert_eq!(load_job(&update(Some(106), None)), LoadJob::NoTime);
    match load_job(&update(Some(106), Some((12, 30)))) {
        LoadJob::Load { job: loaded, offset, schedule } => {
            assert_eq!(loaded, job(106, 12, 30));
            assert_eq!(schedule, job_schedule(12, 30, offset.seconds()));
            assert_eq!(
                load_job_at(job(106, 12, 30), Some(offset)),
                LoadJob::Load { job: loaded, offset, schedule }
            );
        }
        other => panic!("{other:?}"),
    }
    assert_eq!(load_daily_job(job(106, 24, 0)), LoadJob::NoSuchTime);
    assert_eq!(load_daily_job(job(106, 0, 60)), LoadJob::NoSuchTime);
}

#[test]
fn updates_are_due_after_the_daily_message() {
    let daily = entry(Some(1), 106, Some((6, 30)));
    for (now, due) in [
        ((6, 29), false),
        ((6, 30), false),
        ((6, 31), true),
        ((7, 0), true),
        ((7, 31), true),
        ((5, 59), false),
    ] {
        assert_eq!(update_due(&daily, 106, now), due);
    }
    assert!(!update_due(&daily, 118, (23, 59)));
    assert!(!update_due(&entry(None, 106, None), 106, (23, 59)));
}

fn midnight_is_past() -> bool {
    let now = time_of_day_now();
    now != (23, 59) && now != (0, 0)
}

#[test]
fn chats_are_told_by_the_clock() {
    let registrations = BTreeMap::from([
        (1, entry(Some(1), 106, Some((12, 30)))),
        (2, entry(Some(2), 106, Some((12, 29)))),
        (3, entry(None, 106, None)),
        (4, entry(Some(4), 118, Some((0, 0)))),
    ]);
    let chats = vec![1, 2, 3, 4];
    assert_eq!(chats_due(&registrations, 106, &chats, &vec![(12, 30); 4]), vec![2]);
    assert_eq!(chats_due(&registrations, 106, &chats, &vec![(12, 31); 4]), vec![1, 2]);
    assert_eq!(chats_due(&registrations, 118, &chats, &vec![(0, 1); 4]), vec![4]);
    let times = vec![(12, 31), (12, 29), (23, 59), (23, 59)];
    assert_eq!(chats_due(&registrations, 106, &chats, &times), vec![1]);
}

#[test]
fn broadcast_reaches_subscribers_only() {
    let midnight = Some((0, 0));
    let registrations = BTreeMap::from([
        (5, entry(Some(5), 106, midnight)),
        (-3, entry(Some(3), 106, midnight)),
        (1, entry(None, 106, None)),
        (2, entry(Some(2), 118, midnight)),
    ]);
    let task = await_handle_mealplan_upd("106").unwrap();
    if midnight_is_past() {
        assert_eq!(handle_broadcast_update_task(&registrations, &task), vec![-3, 5]);
        assert_eq!(run_task_scheduler(&registrations, &task), SchedulerStep::Tell(vec![-3, 5]));
    }
    let (hour, _) = time_of_day_now();
    if hour < 23 {
        let late = BTreeMap::from([(5, entry(Some(5), 106, Some((23, 59))))]);
        assert_eq!(handle_broadcast_update_task(&late, &task), Vec::<i64>::new());
    }
}

#[test]
fn broadcast_of_differences() {
    let diff = CanteenMealDiff {
        canteen_id: 106,
        new_meals: None,
        modified_meals: None,
        removed_meals: None,
    };
    let task: JobHandlerTask = BroadcastUpdateTask { meals_diff: diff }.into();
    let registrations = BTreeMap::from([
        (5, entry(Some(5), 106, Some((0, 0)))),
        (6, entry(Some(6), 107, Some((0, 0)))),
    ]);
    if midnight_is_past() {
        assert_eq!(handle_broadcast_update_task(&registrations, &task), vec![5]);
    }
}

#[test]
fn announcements_of_changes() {
    assert_eq!(
        await_handle_mealplan_upd("106"),
        Some(JobHandlerTask {
            job_type: JobType::BroadcastUpdate,
            chat_id: None,
            mensa_id: Some(106),
            hour: None,
            minute: None,
            meals_diff: None,
        })
    );
    assert_eq!(await_handle_mealplan_upd("mensa"), None);
    assert_eq!(mealplan_updates_url("http://api"), "http://api/today_updated_ws");
    assert!(announces_changes(Backend::StuWe));
    assert!(!announces_changes(Backend::MensiMates));
    assert_eq!(change_message("Plan\\."), "*__Planänderung:__*\nPlan\\.");
}

#[test]
fn notices_about_campusdual() {
    let grade = CampusDualGrade { name: "Mathe".to_string(), grade: "1,3".to_string(), subgrades: 2 };
    let exam = CampusDualSignupOption {
        name: "Informatik".to_string(),
        verfahren: "Klausur".to_string(),
        status: "📝".to_string(),
    };
    let (grades, exams) = (vec![grade], vec![exam]);
    let (mut known_grades, mut known_exams) = (None, Some(vec![]));
    let notices = check_notify_campusdual_grades_signups(
        CHAT,
        &grades,
        &mut known_grades,
        &exams,
        &mut known_exams,
    );
    assert_eq!(
        notices,
        vec![
            CampusDualNotice {
                chat_id: CHAT,
                news: CampusDualNews::Grades,
                text: "Neue Note:\nMathe: 1,3".to_string(),
            },
            CampusDualNotice {
                chat_id: CHAT,
                news: CampusDualNews::SignupOptions,
                text: "Neue Anmeldemöglichkeit:\n📝 (Klausur) — Informatik".to_string(),
            },
        ]
    );
    assert_eq!(known_grades, Some(grades.clone()));
    assert_eq!(known_exams, Some(vec![]));
    let again = check_notify_campusdual_grades_signups(
        CHAT,
        &grades,
        &mut Some(grades.clone()),
        &exams,
        &mut Some(exams.clone()),
    );
    assert_eq!(again, vec![]);
}

#[test]
fn news_are_stored_when_they_are_sent() {
    let grade = |name: &str| CampusDualGrade {
        name: name.to_string(),
        grade: "1,0".to_string(),
        subgrades: 0,
    };
    let old = vec![grade("A")];
    let received = vec![grade("A"), grade("B")];
    let (mut known, mut known_exams) = (Some(old.clone()), Some(vec![]));
    for _ in 0..2 {
        let notices = check_notify_campusdual_grades_signups(
            CHAT,
            &received,
            &mut known,
            &vec![],
            &mut known_exams,
        );
        assert_eq!(notices.len(), 1);
        assert_eq!(notices[0].text, "Neue Note:\nB: 1,0");
        assert_eq!(known, Some(old.clone()));
        let news = notices[0].news;
        notice_sent(news, false, &received, &mut known, &vec![], &mut known_exams);
        assert_eq!(known, Some(old.clone()));
    }
    notice_sent(
        CampusDualNews::SignupOptions,
        true,
        &received,
        &mut known,
        &vec![],
        &mut known_exams,
    );
    assert_eq!(known, Some(old));
    notice_sent(CampusDualNews::Grades, true, &received, &mut known, &vec![], &mut known_exams);
    assert_eq!(known, Some(received.clone()));
    let notices = check_notify_campusdual_grades_signups(
        CHAT,
        &received,
        &mut known,
        &vec![],
        &mut known_exams,
    );
    assert_eq!(notices, vec![]);
}
