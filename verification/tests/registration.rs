use bot_core::db::database::{Database, Notification};
use bot_core::db::job::LinkageRow;
use bot_core::db::job::JobExtensionType;
use bot_core::db::postgres_metadata_store::{descriptor_of_row, next_tick_column, wait_for, wait_until};
use bot_core::db::postgres_notification_store::notification_of_rows;
use bot_core::db::registration::{start, step, AddAction, AddEvent, AddState};
use bot_core::db::tables::{
    CronJob, Job, JobIdAndNotification, JobStoredData, JobUuid, NotificationData, NotificationState,
    StoredJob,
};
use bot_core::error::StoreError;
use bot_core::hadith::{welcome_message, Hadith, DEFAULT_BOT_NAME, ERROR_TEXT, HELP_TEXT, RETRY_TEXT};

fn descriptor(id: u128) -> JobStoredData {
    JobStoredData {
        id: Some(JobUuid::from_u128(id)),
        last_updated: None,
        last_tick: None,
        next_tick: 10,
        job_type: 0,
        count: 0,
        extra: Vec::new(),
        ran: false,
        stopped: false,
        time_offset_seconds: 0,
        job: Some(StoredJob::CronJob(CronJob { schedule: "* * * * * *".to_string() })),
    }
}

fn run(events: &[AddEvent]) -> (Vec<AddAction>, Result<(), StoreError>) {
    let (mut state, mut action) = start(true);
    let mut actions = vec![action];
    for event in events {
        let next = step(state, *event);
        state = next.0;
        action = next.1;
        actions.push(action);
    }
    assert_eq!(state, AddState::Finished);
    (actions, action.result())
}

#[test]
fn registration_without_metadata_is_refused_at_once() {
    assert_eq!(start(false), (AddState::Finished, AddAction::ReturnErr(StoreError::CantAdd)));
    assert_eq!(start(true), (AddState::Checking, AddAction::CheckVeto));
}

#[test]
fn registration_steps_to_a_commit() {
    let (actions, result) = run(&[
        AddEvent::Vetoed(false),
        AddEvent::Succeeded,
        AddEvent::Succeeded,
        AddEvent::Succeeded,
        AddEvent::Succeeded,
    ]);
    assert_eq!(
        actions,
        vec![
            AddAction::CheckVeto,
            AddAction::Begin,
            AddAction::UpsertJob,
            AddAction::AfterAdd,
            AddAction::Commit,
            AddAction::ReturnOk,
        ]
    );
    assert_eq!(result, Ok(()));
}

#[test]
fn veto_ends_the_registration_in_success() {
    let (actions, result) = run(&[AddEvent::Vetoed(true)]);
    assert_eq!(actions, vec![AddAction::CheckVeto, AddAction::ReturnOk]);
    assert_eq!(result, Ok(()));
}

#[test]
fn failed_check_ends_the_registration() {
    let (actions, result) = run(&[AddEvent::Failed]);
    assert_eq!(actions, vec![AddAction::CheckVeto, AddAction::ReturnErr(StoreError::CantAdd)]);
    assert_eq!(result, Err(StoreError::CantAdd));
}

#[test]
fn failed_begin_needs_no_rollback() {
    let (actions, result) = run(&[AddEvent::Vetoed(false), AddEvent::Failed]);
    assert_eq!(
        actions,
        vec![AddAction::CheckVeto, AddAction::Begin, AddAction::ReturnErr(StoreError::CantAdd)]
    );
    assert_eq!(result, Err(StoreError::CantAdd));
}

#[test]
fn failed_upsert_is_rolled_back() {
    for undone in [AddEvent::Succeeded, AddEvent::Failed] {
        let (actions, result) =
            run(&[AddEvent::Vetoed(false), AddEvent::Succeeded, AddEvent::Failed, undone]);
        assert_eq!(
            actions,
            vec![
                AddAction::CheckVeto,
                AddAction::Begin,
                AddAction::UpsertJob,
                AddAction::Rollback,
                AddAction::ReturnErr(StoreError::CantAdd),
            ]
        );
        assert_eq!(result, Err(StoreError::CantAdd));
    }
}

#[test]
fn failed_hook_is_rolled_back() {
    let (actions, result) = run(&[
        AddEvent::Vetoed(false),
        AddEvent::Succeeded,
        AddEvent::Succeeded,
        AddEvent::Failed,
        AddEvent::Succeeded,
    ]);
    assert_eq!(
        actions,
        vec![
            AddAction::CheckVeto,
            AddAction::Begin,
            AddAction::UpsertJob,
            AddAction::AfterAdd,
            AddAction::Rollback,
            AddAction::ReturnErr(StoreError::CantAdd),
        ]
    );
    assert_eq!(result, Err(StoreError::CantAdd));
}

#[test]
fn failed_commit_is_reported() {
    let (actions, result) = run(&[
        AddEvent::Vetoed(false),
        AddEvent::Succeeded,
        AddEvent::Succeeded,
        AddEvent::Succeeded,
        AddEvent::Failed,
    ]);
    assert_eq!(actions.last(), Some(&AddAction::ReturnErr(StoreError::CantAdd)));
    assert_eq!(result, Err(StoreError::CantAdd));
}

#[test]
fn stray_events_end_the_registration_in_failure() {
    assert_eq!(
        step(AddState::Opening, AddEvent::Vetoed(true)),
        (AddState::Finished, AddAction::ReturnErr(StoreError::CantAdd))
    );
    assert_eq!(
        step(AddState::Checking, AddEvent::Succeeded),
        (AddState::Finished, AddAction::ReturnErr(StoreError::CantAdd))
    );
    assert_eq!(
        step(AddState::Finished, AddEvent::Succeeded),
        (AddState::Finished, AddAction::ReturnErr(StoreError::CantAdd))
    );
    assert_eq!(AddAction::Begin.result(), Err(StoreError::CantAdd));
    assert_eq!(AddAction::ReturnErr(StoreError::NotFound).result(), Err(StoreError::NotFound));
}

#[test]
fn selected_row_becomes_the_answer_of_get() {
    assert_eq!(descriptor_of_row(None), Err(StoreError::NotFound));
    let row = Job::from_descriptor(descriptor(3));
    assert_eq!(descriptor_of_row(Some(row)), Ok(descriptor(3)));
    let mut odd = Job::from_descriptor(descriptor(3));
    odd.schedule = None;
    assert_eq!(descriptor_of_row(Some(odd)), Err(StoreError::FetchFailure));
}

#[test]
fn absent_next_tick_is_stored_as_zero() {
    assert_eq!(next_tick_column(None), 0);
    assert_eq!(next_tick_column(Some(17)), 17);
    assert_eq!(next_tick_column(Some(-4)), -4);
}

#[test]
fn waits_are_differences() {
    assert_eq!(wait_until(10, 25), 15);
    assert_eq!(wait_until(i64::MIN, i64::MAX), u64::MAX);
    assert_eq!(wait_for(10, Some(25)), Some(15));
    assert_eq!(wait_for(10, Some(10)), None);
    assert_eq!(wait_for(10, Some(9)), None);
    assert_eq!(wait_for(10, None), None);
}

#[test]
fn notification_is_built_from_its_rows() {
    let states = vec![NotificationState { state: 3 }, NotificationState { state: 1 }];
    assert_eq!(notification_of_rows(5, None, &states), Err(StoreError::NotFound));
    let row = Notification { job_id: (1u128 << 64) | 2, extra: vec![4, 5] };
    assert_eq!(
        notification_of_rows(5, Some(row), &states),
        Ok(NotificationData {
            job_id: Some(JobIdAndNotification {
                job_id: Some(JobUuid { id1: 1, id2: 2 }),
                notification_id: Some(JobUuid { id1: 0, id2: 5 }),
            }),
            job_states: vec![3, 1],
            extra: vec![4, 5],
        })
    );
}

#[test]
fn linkage_rows_meet_the_constraints() {
    let mut db = Database::new();
    assert_eq!(db.register_user(7, 70), Ok(7));
    assert_eq!(db.insert_job_extension(1, 2), Err(StoreError::CantAdd));
    assert_eq!(db.insert_user_job(100, 1, 7), Err(StoreError::CantAdd));
    db.upsert_job(Job::from_descriptor(descriptor(1)));
    assert_eq!(db.insert_job_extension(1, 2), Ok(()));
    assert_eq!(db.insert_user_job(100, 1, 8), Err(StoreError::CantAdd));
    assert_eq!(db.insert_user_job(100, 1, 7), Ok(()));
    assert_eq!(db.insert_user_job(100, 1, 7), Err(StoreError::CantAdd));
    assert_eq!(db.linkage_ids(2, 7), vec![100]);
    assert!(db.linkage_ids(1, 7).is_empty());
    let rows = vec![
        LinkageRow::JobExtension { extension_type: JobExtensionType::WhiteDaysMessage },
        LinkageRow::UserJob { id: 101, user_id: 7 },
    ];
    assert_eq!(db.insert_links(1, &rows), Ok(()));
    assert_eq!(db.linkage_ids(1, 7).len(), 2);
    assert_eq!(db.insert_links(1, &rows), Err(StoreError::CantAdd));
    assert_eq!(db.insert_links(9, &Vec::new()), Ok(()));
}

#[test]
fn snapshot_is_a_copy() {
    let mut db = Database::new();
    db.upsert_job(Job::from_descriptor(descriptor(1)));
    let copy = db.snapshot();
    assert!(db.delete_job(1));
    assert!(!db.delete_job(1));
    assert!(!db.has_job(1));
    assert!(copy.has_job(1));
    assert_eq!(copy.select_job(1), Some(Job::from_descriptor(descriptor(1))));
    assert_eq!(db.select_job(1), None);
}

#[test]
fn database_statements_on_ticks() {
    let mut db = Database::new();
    db.upsert_job(Job::from_descriptor(descriptor(1)));
    assert!(db.update_ticks(1, 50, Some(40)));
    assert!(!db.update_ticks(2, 50, Some(40)));
    assert_eq!(db.next_tick_after(49), Some(50));
    assert_eq!(db.next_tick_after(50), None);
    assert_eq!(db.select_due(50).len(), 1);
    assert_eq!(db.select_due(50)[0].last_tick, Some(40));
    assert!(db.select_due(49).is_empty());
}

#[test]
fn hadith_is_laid_out_as_a_message() {
    let hadith = Hadith {
        id: 1,
        text_bos: "Djela se cijene prema namjerama.".to_string(),
        transmitters_text: "Od Omera".to_string(),
        hadith_numbers: Some("1, 54".to_string()),
        book_title: "Sahih".to_string(),
        book_author: "Buhari".to_string(),
    };
    assert_eq!(
        hadith.message(),
        "Od Omera\n\nDjela se cijene prema namjerama.\n\n\nBuhari: Sahih\nHadis Broj: 1, 54"
    );
    let bare = Hadith { hadith_numbers: None, ..hadith };
    assert_eq!(
        bare.message(),
        "Od Omera\n\nDjela se cijene prema namjerama.\n\n\nBuhari: Sahih\nHadis Broj: "
    );
}

#[test]
fn hadith_bot_texts() {
    assert_eq!(
        welcome_message(DEFAULT_BOT_NAME),
        "Es-selamu alejkum!\n\nJa sam Dnevni Hadis. Svakog dana ću Vam slati jedan hadis.\nKoristite /help za listu komandi."
    );
    assert!(HELP_TEXT.starts_with("Dostupne komande:"));
    assert_eq!(ERROR_TEXT, "Dogodila se greška. Pokušajte kasnije.");
    assert_eq!(RETRY_TEXT, "Dogodila se greška. Pokušajte ponovo kasnije.");
}
