use bot_core::db::database::Database;
use bot_core::db::job::{JobExtensionType, JobExtraData};
use bot_core::db::postgres_metadata_store::PostgresMetadataStore;
use bot_core::db::postgres_notification_store::PostgresNotificationStore;
use bot_core::db::tables::{
    CronJob, JobIdAndNotification, JobNotification, JobStoredData, JobUuid, NotificationData,
    StoredJob,
};
use bot_core::error::StoreError;

fn job(id: u128) -> JobStoredData {
    JobStoredData {
        id: Some(JobUuid::from_u128(id)),
        last_updated: None,
        last_tick: None,
        next_tick: 10,
        job_type: 0,
        count: 0,
        extra: Vec::new(),
        ran: false,
        stopped: false,
        time_offset_seconds: 0,
        job: Some(StoredJob::CronJob(CronJob { schedule: "* * * * * *".to_string() })),
    }
}

fn database_with_jobs() -> Database {
    let mut db = Database::new();
    let store = PostgresMetadataStore::new();
    let extra = JobExtraData { user_id: 1, extension_type: JobExtensionType::WhiteDaysMessage };
    assert_eq!(store.add_or_update(&mut db, job(10), Some(extra)), Ok(()));
    assert_eq!(store.add_or_update(&mut db, job(20), Some(extra)), Ok(()));
    db
}

fn notification(job_id: u128, id: u128, states: Vec<i32>, extra: Vec<u8>) -> NotificationData {
    NotificationData {
        job_id: Some(JobIdAndNotification {
            job_id: Some(JobUuid::from_u128(job_id)),
            notification_id: Some(JobUuid::from_u128(id)),
        }),
        job_states: states,
        extra,
    }
}

fn sorted(mut ids: Vec<u128>) -> Vec<u128> {
    ids.sort();
    ids
}

#[test]
fn notification_is_read_back() {
    let mut db = database_with_jobs();
    let store = PostgresNotificationStore::new();
    let data = notification(10, 1, vec![1, 3], vec![7, 8]);
    assert_eq!(store.add_or_update(&mut db, data.clone()), Ok(()));
    assert_eq!(store.get(&db, 1), Ok(data));
    assert_eq!(store.get(&db, 2), Err(StoreError::NotFound));
}

#[test]
fn notification_states_are_kept_once_each() {
    let mut db = database_with_jobs();
    let store = PostgresNotificationStore::new();
    assert_eq!(store.add_or_update(&mut db, notification(10, 1, vec![3, 1, 3, 3, 1, 0], vec![])), Ok(()));
    assert_eq!(store.get(&db, 1), Ok(notification(10, 1, vec![3, 1, 0], vec![])));
}

#[test]
fn update_replaces_row_and_states() {
    let mut db = database_with_jobs();
    let store = PostgresNotificationStore::new();
    assert_eq!(store.add_or_update(&mut db, notification(10, 1, vec![1, 2], vec![1])), Ok(()));
    assert_eq!(store.add_or_update(&mut db, notification(10, 2, vec![2], vec![2])), Ok(()));
    assert_eq!(store.add_or_update(&mut db, notification(20, 1, vec![4], vec![9, 9])), Ok(()));
    assert_eq!(store.get(&db, 1), Ok(notification(20, 1, vec![4], vec![9, 9])));
    assert_eq!(store.get(&db, 2), Ok(notification(10, 2, vec![2], vec![2])));
    assert_eq!(store.add_or_update(&mut db, notification(20, 1, vec![], vec![])), Ok(()));
    assert_eq!(store.get(&db, 1), Ok(notification(20, 1, vec![], vec![])));
}

#[test]
fn notification_without_identifiers_is_refused() {
    let mut db = database_with_jobs();
    let store = PostgresNotificationStore::new();
    let mut data = notification(10, 1, vec![1], vec![]);
    data.job_id = None;
    assert_eq!(store.add_or_update(&mut db, data), Err(StoreError::CantAdd));
    let mut data = notification(10, 1, vec![1], vec![]);
    data.job_id = Some(JobIdAndNotification { job_id: None, notification_id: Some(JobUuid::from_u128(1)) });
    assert_eq!(store.add_or_update(&mut db, data), Err(StoreError::CantAdd));
    let mut data = notification(10, 1, vec![1], vec![]);
    data.job_id = Some(JobIdAndNotification { job_id: Some(JobUuid::from_u128(10)), notification_id: None });
    assert_eq!(store.add_or_update(&mut db, data), Err(StoreError::CantAdd));
    assert_eq!(store.get(&db, 1), Err(StoreError::NotFound));
}

#[test]
fn notification_of_unknown_job_is_refused() {
    let mut db = database_with_jobs();
    let store = PostgresNotificationStore::new();
    assert_eq!(
        store.add_or_update(&mut db, notification(99, 1, vec![1], vec![])),
        Err(StoreError::CantAdd)
    );
    assert_eq!(store.get(&db, 1), Err(StoreError::NotFound));
    assert_eq!(store.add_or_update(&mut db, notification(10, 1, vec![1], vec![5])), Ok(()));
    assert_eq!(
        store.add_or_update(&mut db, notification(99, 1, vec![2], vec![6])),
        Err(StoreError::CantAdd)
    );
    assert_eq!(store.get(&db, 1), Ok(notification(10, 1, vec![1], vec![5])));
}

#[test]
fn key_extraction_from_notification_data() {
    let data = notification((3u128 << 64) | 4, (5u128 << 64) | 6, vec![], vec![]);
    assert_eq!(
        data.job_id_and_notification_id_from_data(),
        Some(((3u128 << 64) | 4, (5u128 << 64) | 6))
    );
    let mut none = data.clone();
    none.job_id = None;
    assert_eq!(none.job_id_and_notification_id_from_data(), None);
}

#[test]
fn deleting_a_state_reports_whether_it_was_there() {
    let mut db = database_with_jobs();
    let store = PostgresNotificationStore::new();
    assert_eq!(store.add_or_update(&mut db, notification(10, 1, vec![1, 3], vec![])), Ok(()));
    assert_eq!(store.add_or_update(&mut db, notification(10, 2, vec![3], vec![])), Ok(()));
    assert_eq!(store.delete_notification_for_state(&mut db, 1, JobNotification::Started), Ok(false));
    assert_eq!(store.delete_notification_for_state(&mut db, 1, JobNotification::Done), Ok(true));
    assert_eq!(store.delete_notification_for_state(&mut db, 1, JobNotification::Done), Ok(false));
    assert_eq!(store.delete_notification_for_state(&mut db, 9, JobNotification::Done), Ok(false));
    assert_eq!(store.get(&db, 1), Ok(notification(10, 1, vec![1], vec![])));
    assert_eq!(store.get(&db, 2), Ok(notification(10, 2, vec![3], vec![])));
}

#[test]
fn notifications_are_listed_by_job_and_state() {
    let mut db = database_with_jobs();
    let store = PostgresNotificationStore::new();
    assert_eq!(store.add_or_update(&mut db, notification(10, 1, vec![1, 3], vec![])), Ok(()));
    assert_eq!(store.add_or_update(&mut db, notification(10, 2, vec![3], vec![])), Ok(()));
    assert_eq!(store.add_or_update(&mut db, notification(10, 3, vec![], vec![])), Ok(()));
    assert_eq!(store.add_or_update(&mut db, notification(20, 4, vec![3], vec![])), Ok(()));
    assert_eq!(sorted(store.list_notification_guids_for_job_id(&db, 10).unwrap()), vec![1, 2, 3]);
    assert_eq!(sorted(store.list_notification_guids_for_job_id(&db, 20).unwrap()), vec![4]);
    assert!(store.list_notification_guids_for_job_id(&db, 30).unwrap().is_empty());
    assert_eq!(
        sorted(store.list_notification_guids_for_job_and_state(&db, 10, JobNotification::Done).unwrap()),
        vec![1, 2]
    );
    assert_eq!(
        sorted(
            store.list_notification_guids_for_job_and_state(&db, 10, JobNotification::Scheduled).unwrap()
        ),
        vec![1]
    );
    assert!(store
        .list_notification_guids_for_job_and_state(&db, 10, JobNotification::Removed)
        .unwrap()
        .is_empty());
    assert_eq!(
        sorted(store.list_notification_guids_for_job_and_state(&db, 20, JobNotification::Done).unwrap()),
        vec![4]
    );
}

#[test]
fn delete_removes_one_notification() {
    let mut db = database_with_jobs();
    let store = PostgresNotificationStore::new();
    assert_eq!(store.add_or_update(&mut db, notification(10, 1, vec![1], vec![])), Ok(()));
    assert_eq!(store.add_or_update(&mut db, notification(10, 2, vec![1], vec![])), Ok(()));
    assert_eq!(store.delete(&mut db, 1), Ok(()));
    assert_eq!(store.get(&db, 1), Err(StoreError::NotFound));
    assert_eq!(store.get(&db, 2), Ok(notification(10, 2, vec![1], vec![])));
    assert_eq!(store.delete(&mut db, 1), Ok(()));
    assert_eq!(store.add_or_update(&mut db, notification(10, 1, vec![], vec![])), Ok(()));
    assert_eq!(store.get(&db, 1), Ok(notification(10, 1, vec![], vec![])));
}

#[test]
fn delete_for_job_removes_the_notifications_of_that_job() {
    let mut db = database_with_jobs();
    let store = PostgresNotificationStore::new();
    assert_eq!(store.add_or_update(&mut db, notification(10, 1, vec![1], vec![])), Ok(()));
    assert_eq!(store.add_or_update(&mut db, notification(10, 2, vec![2], vec![])), Ok(()));
    assert_eq!(store.add_or_update(&mut db, notification(20, 3, vec![3], vec![])), Ok(()));
    assert_eq!(store.delete_for_job(&mut db, 10), Ok(()));
    assert_eq!(store.get(&db, 1), Err(StoreError::NotFound));
    assert_eq!(store.get(&db, 2), Err(StoreError::NotFound));
    assert_eq!(store.get(&db, 3), Ok(notification(20, 3, vec![3], vec![])));
    assert!(db.has_job(10));
    assert_eq!(store.add_or_update(&mut db, notification(10, 1, vec![], vec![])), Ok(()));
    assert_eq!(store.get(&db, 1), Ok(notification(10, 1, vec![], vec![])));
}

#[test]
fn cascade_delete() {
    let mut db = database_with_jobs();
    let notifications = PostgresNotificationStore::new();
    let jobs = PostgresMetadataStore::new();
    assert_eq!(notifications.add_or_update(&mut db, notification(10, 1, vec![1, 3], vec![])), Ok(()));
    assert_eq!(notifications.add_or_update(&mut db, notification(10, 2, vec![], vec![])), Ok(()));
    assert_eq!(notifications.add_or_update(&mut db, notification(20, 3, vec![3], vec![])), Ok(()));
    assert_eq!(jobs.delete(&mut db, 10), Ok(()));
    assert_eq!(notifications.get(&db, 1), Err(StoreError::NotFound));
    assert_eq!(notifications.get(&db, 2), Err(StoreError::NotFound));
    assert_eq!(notifications.get(&db, 3), Ok(notification(20, 3, vec![3], vec![])));
    assert!(notifications.list_notification_guids_for_job_id(&db, 10).unwrap().is_empty());
    assert_eq!(
        notifications.delete_notification_for_state(&mut db, 1, JobNotification::Done),
        Ok(false)
    );
    let extra = JobExtraData { user_id: 1, extension_type: JobExtensionType::WhiteDaysMessage };
    assert_eq!(jobs.add_or_update(&mut db, job(10), Some(extra)), Ok(()));
    assert_eq!(notifications.add_or_update(&mut db, notification(10, 1, vec![], vec![])), Ok(()));
    assert_eq!(notifications.get(&db, 1), Ok(notification(10, 1, vec![], vec![])));
}

#[test]
fn state_codes() {
    assert_eq!(JobNotification::Stop.code(), 0);
    assert_eq!(JobNotification::Scheduled.code(), 1);
    assert_eq!(JobNotification::Started.code(), 2);
    assert_eq!(JobNotification::Done.code(), 3);
    assert_eq!(JobNotification::Removed.code(), 4);
}

#[test]
fn notification_store_init_is_a_formality() {
    let mut store = PostgresNotificationStore::new();
    assert_eq!(store.inited(), Ok(true));
    assert_eq!(store.init(), Ok(()));
}
