use bot_core::db::database::Database;
use bot_core::db::job::{
    JobCallbacks, JobCallbacksExtension, JobExtensionType, JobExtraData, LinkageRow, NoCallbacks,
    SchedulerCallbacks,
};
use bot_core::db::postgres_metadata_store::PostgresMetadataStore;
use bot_core::db::tables::{
    CronJob, Job, JobAndNextTick, JobStoredData, JobUuid, NonCronJob, StoredJob,
};
use bot_core::error::StoreError;

const U1: u128 = 0x1111;
const U2: u128 = 0x2222;
const NOW: i64 = 1_700_000_000;

fn cron(id: u128, next_tick: u64) -> JobStoredData {
    JobStoredData {
        id: Some(JobUuid::from_u128(id)),
        last_updated: None,
        last_tick: None,
        next_tick,
        job_type: 0,
        count: 0,
        extra: b"{}".to_vec(),
        ran: false,
        stopped: false,
        time_offset_seconds: 0,
        job: Some(StoredJob::CronJob(CronJob { schedule: "0 0 18 * * *".to_string() })),
    }
}

fn daily(user_id: u128) -> JobExtraData {
    JobExtraData { user_id, extension_type: JobExtensionType::DailyHadithMessage }
}

fn white_days(user_id: u128) -> JobExtraData {
    JobExtraData { user_id, extension_type: JobExtensionType::WhiteDaysMessage }
}

fn database_with_users() -> Database {
    let mut db = Database::new();
    assert_eq!(db.register_user(U1, 100), Ok(U1));
    assert_eq!(db.register_user(U2, 200), Ok(U2));
    db
}

struct FailingAfter;

impl JobCallbacksExtension for FailingAfter {
    fn before_job_add(
        &self,
        _job: &Job,
        _extra: &JobExtraData,
        _db: &Database,
    ) -> Result<bool, StoreError> {
        Ok(false)
    }

    fn after_job_add(
        &self,
        _job: &Job,
        _extra: &JobExtraData,
        _tx: &Database,
    ) -> Result<Vec<LinkageRow>, StoreError> {
        Err(StoreError::FetchFailure)
    }
}

struct FailingBefore;

impl JobCallbacksExtension for FailingBefore {
    fn before_job_add(
        &self,
        _job: &Job,
        _extra: &JobExtraData,
        _db: &Database,
    ) -> Result<bool, StoreError> {
        Err(StoreError::FetchFailure)
    }

    fn after_job_add(
        &self,
        _job: &Job,
        _extra: &JobExtraData,
        _tx: &Database,
    ) -> Result<Vec<LinkageRow>, StoreError> {
        Ok(Vec::new())
    }
}

struct TwoOwners;

impl JobCallbacksExtension for TwoOwners {
    fn before_job_add(
        &self,
        _job: &Job,
        _extra: &JobExtraData,
        _db: &Database,
    ) -> Result<bool, StoreError> {
        Ok(false)
    }

    fn after_job_add(
        &self,
        _job: &Job,
        extra: &JobExtraData,
        _tx: &Database,
    ) -> Result<Vec<LinkageRow>, StoreError> {
        Ok(vec![
            LinkageRow::JobExtension { extension_type: extra.extension_type },
            LinkageRow::UserJob { id: 1, user_id: extra.user_id },
            LinkageRow::UserJob { id: 1, user_id: extra.user_id },
        ])
    }
}

#[test]
fn get_of_unknown_job_is_not_found() {
    let db = Database::new();
    let store = PostgresMetadataStore::new();
    assert_eq!(store.get(&db, 1), Err(StoreError::NotFound));
}

#[test]
fn stored_job_is_read_back() {
    let mut db = Database::new();
    let store = PostgresMetadataStore::new();
    assert_eq!(store.add_or_update(&mut db, cron(1, 5), Some(daily(U1))), Ok(()));
    assert_eq!(store.get(&db, 1), Ok(cron(1, 5)));
    assert_eq!(store.get(&db, 2), Err(StoreError::NotFound));
}

#[test]
fn upsert_overwrites_every_field() {
    let mut db = Database::new();
    let store = PostgresMetadataStore::new();
    assert_eq!(store.add_or_update(&mut db, cron(1, 5), Some(daily(U1))), Ok(()));
    let mut changed = cron(1, 99);
    changed.job_type = 1;
    changed.count = 8;
    changed.ran = true;
    changed.stopped = true;
    changed.last_tick = Some(4);
    changed.last_updated = Some(6);
    changed.time_offset_seconds = 60;
    changed.extra = vec![9];
    changed.job = Some(StoredJob::NonCronJob(NonCronJob { repeating: true, repeated_every: 30 }));
    assert_eq!(store.add_or_update(&mut db, changed.clone(), Some(daily(U1))), Ok(()));
    assert_eq!(store.get(&db, 1), Ok(changed));
}

#[test]
fn unreadable_row_is_a_fetch_failure() {
    let mut db = Database::new();
    let store = PostgresMetadataStore::new();
    let mut odd = cron(1, 5);
    odd.job_type = 9;
    assert_eq!(store.add_or_update(&mut db, odd, Some(daily(U1))), Ok(()));
    assert_eq!(store.get(&db, 1), Err(StoreError::FetchFailure));
    let mut bare = cron(2, 5);
    bare.job = None;
    assert_eq!(store.add_or_update(&mut db, bare, Some(daily(U1))), Ok(()));
    assert_eq!(store.get(&db, 2), Err(StoreError::FetchFailure));
}

#[test]
fn job_without_metadata_is_refused() {
    let mut db = database_with_users();
    let store = PostgresMetadataStore::new().with_callbacks(JobCallbacks);
    assert_eq!(store.add_or_update(&mut db, cron(1, 5), None), Err(StoreError::CantAdd));
    assert!(!db.has_job(1));
    let plain = PostgresMetadataStore::new();
    assert_eq!(plain.add_or_update(&mut db, cron(1, 5), None), Err(StoreError::CantAdd));
    assert!(!db.has_job(1));
}

#[test]
fn registration_is_idempotent() {
    let mut db = database_with_users();
    let store = PostgresMetadataStore::new().with_callbacks(JobCallbacks);
    assert_eq!(store.add_or_update(&mut db, cron(1, 5), Some(daily(U1))), Ok(()));
    assert_eq!(db.linkage_ids(2, U1).len(), 1);
    assert_eq!(store.add_or_update(&mut db, cron(1, 5), Some(daily(U1))), Ok(()));
    assert_eq!(db.linkage_ids(2, U1).len(), 1);
    assert_eq!(store.add_or_update(&mut db, cron(2, 5), Some(daily(U1))), Ok(()));
    assert_eq!(db.linkage_ids(2, U1).len(), 1);
    assert!(!db.has_job(2));
    assert!(db.linkage_exists(2, U1));
    assert!(!db.linkage_exists(1, U1));
}

#[test]
fn veto_leaves_the_stored_job_untouched() {
    let mut db = database_with_users();
    let store = PostgresMetadataStore::new().with_callbacks(JobCallbacks);
    assert_eq!(store.add_or_update(&mut db, cron(1, 5), Some(daily(U1))), Ok(()));
    assert_eq!(store.add_or_update(&mut db, cron(1, 777), Some(daily(U1))), Ok(()));
    let plain = PostgresMetadataStore::new();
    assert_eq!(plain.get(&db, 1), Ok(cron(1, 5)));
}

#[test]
fn failing_after_hook_writes_nothing() {
    let mut db = database_with_users();
    let store = PostgresMetadataStore::new().with_callbacks(FailingAfter);
    assert_eq!(
        store.add_or_update(&mut db, cron(1, 5), Some(daily(U1))),
        Err(StoreError::CantAdd)
    );
    assert!(!db.has_job(1));
    assert!(!db.extension_exists(2));
    assert!(db.linkage_ids(2, U1).is_empty());
    assert_eq!(store.get(&db, 1), Err(StoreError::NotFound));
}

#[test]
fn failing_after_hook_keeps_the_old_row() {
    let mut db = database_with_users();
    let plain = PostgresMetadataStore::new();
    assert_eq!(plain.add_or_update(&mut db, cron(1, 5), Some(daily(U1))), Ok(()));
    let store = plain.with_callbacks(FailingAfter);
    assert_eq!(
        store.add_or_update(&mut db, cron(1, 99), Some(daily(U1))),
        Err(StoreError::CantAdd)
    );
    assert_eq!(store.get(&db, 1), Ok(cron(1, 5)));
}

#[test]
fn failing_before_hook_fails_the_registration() {
    let mut db = database_with_users();
    let store = PostgresMetadataStore::new().with_callbacks(FailingBefore);
    assert_eq!(
        store.add_or_update(&mut db, cron(1, 5), Some(daily(U1))),
        Err(StoreError::CantAdd)
    );
    assert!(!db.has_job(1));
}

#[test]
fn refused_linkage_row_rolls_everything_back() {
    let mut db = database_with_users();
    let store = PostgresMetadataStore::new().with_callbacks(TwoOwners);
    assert_eq!(
        store.add_or_update(&mut db, cron(1, 5), Some(daily(U1))),
        Err(StoreError::CantAdd)
    );
    assert!(!db.has_job(1));
    assert!(!db.extension_exists(2));
    assert!(db.linkage_ids(2, U1).is_empty());
}

#[test]
fn owner_must_be_a_registered_user() {
    let mut db = Database::new();
    let store = PostgresMetadataStore::new().with_callbacks(JobCallbacks);
    assert_eq!(
        store.add_or_update(&mut db, cron(1, 5), Some(daily(U1))),
        Err(StoreError::CantAdd)
    );
    assert!(!db.has_job(1));
    assert!(!db.extension_exists(2));
}

#[test]
fn scenario_two_owners_register_daily() {
    let mut db = database_with_users();
    let store = PostgresMetadataStore::new().with_callbacks(JobCallbacks);
    assert_eq!(store.add_or_update(&mut db, cron(1, 5), Some(daily(U1))), Ok(()));
    assert!(db.has_job(1));
    assert_eq!(db.linkage_ids(2, U1).len(), 1);
    assert_eq!(store.add_or_update(&mut db, cron(2, 6), Some(daily(U1))), Ok(()));
    assert_eq!(db.linkage_ids(2, U1).len(), 1);
    assert_eq!(store.add_or_update(&mut db, cron(3, 7), Some(daily(U2))), Ok(()));
    assert!(db.has_job(3));
    assert_eq!(db.linkage_ids(2, U2).len(), 1);
    assert_eq!(db.linkage_ids(2, U1).len() + db.linkage_ids(2, U2).len(), 2);
    let first = db.linkage_ids(2, U1)[0];
    let second = db.linkage_ids(2, U2)[0];
    assert_ne!(first, second);
}

#[test]
fn one_owner_may_have_jobs_of_two_types() {
    let mut db = database_with_users();
    let store = PostgresMetadataStore::new().with_callbacks(JobCallbacks);
    assert_eq!(store.add_or_update(&mut db, cron(1, 5), Some(daily(U1))), Ok(()));
    assert_eq!(store.add_or_update(&mut db, cron(2, 5), Some(white_days(U1))), Ok(()));
    assert!(db.has_job(2));
    assert_eq!(db.linkage_ids(2, U1).len(), 1);
    assert_eq!(db.linkage_ids(1, U1).len(), 1);
}

#[test]
fn scheduler_hooks_tag_the_job_only() {
    let mut db = Database::new();
    let store = PostgresMetadataStore::new().with_callbacks(SchedulerCallbacks);
    assert_eq!(store.add_or_update(&mut db, cron(1, 5), Some(white_days(U1))), Ok(()));
    assert!(db.has_job(1));
    assert!(db.extension_exists(1));
    assert!(!db.extension_exists(2));
    assert!(!db.linkage_exists(1, U1));
}

#[test]
fn no_hooks_write_the_job_only() {
    let mut db = Database::new();
    let store = PostgresMetadataStore::new().with_callbacks(NoCallbacks);
    assert_eq!(store.add_or_update(&mut db, cron(1, 5), Some(daily(U1))), Ok(()));
    assert!(db.has_job(1));
    assert!(!db.extension_exists(2));
}

#[test]
fn owner_hooks_answer() {
    let mut db = database_with_users();
    let job = Job::from_descriptor(cron(1, 5));
    assert_eq!(JobCallbacks.before_job_add(&job, &daily(U1), &db), Ok(false));
    let rows = JobCallbacks.after_job_add(&job, &daily(U1), &db).unwrap();
    assert_eq!(rows.len(), 2);
    assert_eq!(
        rows[0],
        LinkageRow::JobExtension { extension_type: JobExtensionType::DailyHadithMessage }
    );
    let first = match rows[1] {
        LinkageRow::UserJob { id, user_id } => {
            assert_eq!(user_id, U1);
            id
        }
        _ => panic!("the second row is the owner's"),
    };
    assert_eq!(first & 0xf000_c000_0000_0000_0000, 0x4000_8000_0000_0000_0000);
    let again = JobCallbacks.after_job_add(&job, &daily(U1), &db).unwrap();
    match again[1] {
        LinkageRow::UserJob { id, .. } => assert_ne!(id, first),
        _ => panic!("the second row is the owner's"),
    }
    let store = PostgresMetadataStore::new().with_callbacks(JobCallbacks);
    assert_eq!(store.add_or_update(&mut db, cron(1, 5), Some(daily(U1))), Ok(()));
    assert_eq!(JobCallbacks.before_job_add(&job, &daily(U1), &db), Ok(true));
    assert_eq!(JobCallbacks.before_job_add(&job, &daily(U2), &db), Ok(false));
    assert_eq!(JobCallbacks.before_job_add(&job, &white_days(U1), &db), Ok(false));
}

#[test]
fn tick_filtering() {
    let mut db = Database::new();
    let store = PostgresMetadataStore::new();
    assert_eq!(store.add_or_update(&mut db, cron(1, 0), Some(daily(U1))), Ok(()));
    assert_eq!(store.add_or_update(&mut db, cron(2, (NOW - 10) as u64), Some(daily(U1))), Ok(()));
    assert_eq!(store.add_or_update(&mut db, cron(3, (NOW + 10) as u64), Some(daily(U1))), Ok(()));
    let due = store.list_next_ticks(&db, NOW).unwrap();
    assert_eq!(
        due,
        vec![JobAndNextTick {
            id: Some(JobUuid::from_u128(2)),
            job_type: 0,
            next_tick: (NOW - 10) as u64,
            last_tick: None,
        }]
    );
}

#[test]
fn tick_window_is_closed_at_now() {
    let mut db = Database::new();
    let store = PostgresMetadataStore::new();
    assert_eq!(store.add_or_update(&mut db, cron(1, NOW as u64), Some(daily(U1))), Ok(()));
    assert_eq!(store.add_or_update(&mut db, cron(2, 1), Some(daily(U1))), Ok(()));
    assert_eq!(store.add_or_update(&mut db, cron(3, (NOW + 1) as u64), Some(daily(U1))), Ok(()));
    assert_eq!(store.add_or_update(&mut db, cron(4, u64::MAX), Some(daily(U1))), Ok(()));
    let mut ids: Vec<u128> = store
        .list_next_ticks(&db, NOW)
        .unwrap()
        .iter()
        .map(|entry| entry.id.unwrap().as_u128())
        .collect();
    ids.sort();
    assert_eq!(ids, vec![1, 2]);
    assert!(store.list_next_ticks(&db, 0).unwrap().is_empty());
    assert!(store.list_next_ticks(&db, -5).unwrap().is_empty());
}

#[test]
fn unscheduled_job_is_never_due() {
    let mut db = Database::new();
    let store = PostgresMetadataStore::new();
    assert_eq!(store.add_or_update(&mut db, cron(1, 50), Some(daily(U1))), Ok(()));
    assert_eq!(store.list_next_ticks(&db, NOW).unwrap().len(), 1);
    assert_eq!(store.set_next_and_last_tick(&mut db, 1, None, Some(50)), Ok(()));
    for now in [i64::MIN, -1, 0, 1, 50, NOW, i64::MAX] {
        assert!(store.list_next_ticks(&db, now).unwrap().is_empty());
    }
    let stored = store.get(&db, 1).unwrap();
    assert_eq!(stored.next_tick, 0);
    assert_eq!(stored.last_tick, Some(50));
}

#[test]
fn ticks_are_recorded() {
    let mut db = Database::new();
    let store = PostgresMetadataStore::new();
    assert_eq!(store.add_or_update(&mut db, cron(1, 50), Some(daily(U1))), Ok(()));
    assert_eq!(store.add_or_update(&mut db, cron(2, 60), Some(daily(U1))), Ok(()));
    assert_eq!(store.set_next_and_last_tick(&mut db, 1, Some(500), None), Ok(()));
    let mut expected = cron(1, 500);
    expected.last_tick = None;
    assert_eq!(store.get(&db, 1), Ok(expected));
    assert_eq!(store.get(&db, 2), Ok(cron(2, 60)));
    assert_eq!(store.set_next_and_last_tick(&mut db, 9, Some(1), Some(1)), Ok(()));
    assert_eq!(store.get(&db, 9), Err(StoreError::NotFound));
}

#[test]
fn time_till_next_job_is_the_smallest_wait() {
    let mut db = Database::new();
    let store = PostgresMetadataStore::new();
    assert_eq!(store.time_till_next_job_at(&db, NOW), Ok(None));
    assert_eq!(store.add_or_update(&mut db, cron(1, 0), Some(daily(U1))), Ok(()));
    assert_eq!(store.add_or_update(&mut db, cron(2, (NOW - 10) as u64), Some(daily(U1))), Ok(()));
    assert_eq!(store.add_or_update(&mut db, cron(3, NOW as u64), Some(daily(U1))), Ok(()));
    assert_eq!(store.time_till_next_job_at(&db, NOW), Ok(None));
    assert_eq!(store.add_or_update(&mut db, cron(4, (NOW + 90) as u64), Some(daily(U1))), Ok(()));
    assert_eq!(store.add_or_update(&mut db, cron(5, (NOW + 30) as u64), Some(daily(U1))), Ok(()));
    assert_eq!(store.add_or_update(&mut db, cron(6, (NOW + 60) as u64), Some(daily(U1))), Ok(()));
    assert_eq!(store.time_till_next_job_at(&db, NOW), Ok(Some(30)));
    assert_eq!(store.time_till_next_job_at(&db, NOW + 30), Ok(Some(30)));
    assert_eq!(store.time_till_next_job_at(&db, NOW + 89), Ok(Some(1)));
    assert_eq!(store.time_till_next_job_at(&db, NOW + 90), Ok(None));
}

#[test]
fn time_till_next_job_spans_the_whole_range() {
    let mut db = Database::new();
    let store = PostgresMetadataStore::new();
    assert_eq!(store.add_or_update(&mut db, cron(1, i64::MAX as u64), Some(daily(U1))), Ok(()));
    assert_eq!(store.time_till_next_job_at(&db, i64::MIN), Ok(Some(u64::MAX)));
    assert_eq!(store.time_till_next_job_at(&db, -1), Ok(Some(1u64 << 63)));
}

#[test]
fn time_till_next_job_reads_the_clock() {
    let mut db = Database::new();
    let store = PostgresMetadataStore::new();
    assert_eq!(store.time_till_next_job(&db), Ok(None));
    assert_eq!(store.add_or_update(&mut db, cron(1, 1), Some(daily(U1))), Ok(()));
    assert_eq!(store.time_till_next_job(&db), Ok(None));
    let far = i64::MAX as u64;
    assert_eq!(store.add_or_update(&mut db, cron(2, far), Some(daily(U1))), Ok(()));
    let wait = store.time_till_next_job(&db).unwrap().unwrap();
    assert!(wait < far - 1_600_000_000);
    assert!(wait > far / 2);
}

#[test]
fn delete_removes_the_job_and_its_linkage() {
    let mut db = database_with_users();
    let store = PostgresMetadataStore::new().with_callbacks(JobCallbacks);
    assert_eq!(store.add_or_update(&mut db, cron(1, 5), Some(daily(U1))), Ok(()));
    assert_eq!(store.add_or_update(&mut db, cron(2, 5), Some(daily(U2))), Ok(()));
    assert_eq!(store.delete(&mut db, 1), Ok(()));
    assert_eq!(store.get(&db, 1), Err(StoreError::NotFound));
    assert!(!db.linkage_exists(2, U1));
    assert!(db.linkage_exists(2, U2));
    assert_eq!(store.get(&db, 2), Ok(cron(2, 5)));
    assert_eq!(store.delete(&mut db, 1), Ok(()));
    assert_eq!(store.add_or_update(&mut db, cron(3, 5), Some(daily(U1))), Ok(()));
    assert!(db.has_job(3));
}

#[test]
fn init_is_a_formality() {
    let mut store = PostgresMetadataStore::new();
    assert_eq!(store.inited(), Ok(true));
    assert_eq!(store.init(), Ok(()));
    assert_eq!(store.inited(), Ok(true));
}

#[test]
fn users_are_registered_once_per_chat() {
    let mut db = Database::new();
    assert_eq!(db.user_of_chat(100), None);
    assert_eq!(db.register_user(U1, 100), Ok(U1));
    assert_eq!(db.register_user(U2, 100), Ok(U1));
    assert!(db.has_user(U1));
    assert!(!db.has_user(U2));
    assert_eq!(db.register_user(U1, 200), Err(StoreError::CantAdd));
    assert_eq!(db.user_of_chat(200), None);
    assert_eq!(db.register_user(U2, 200), Ok(U2));
    assert_eq!(db.user_of_chat(200), Some(U2));
    assert_eq!(db.user_of_chat(100), Some(U1));
}

#[test]
fn extension_type_tags() {
    assert_eq!(JobExtensionType::WhiteDaysMessage.code(), 1);
    assert_eq!(JobExtensionType::DailyHadithMessage.code(), 2);
    assert_eq!(JobExtensionType::from(1), JobExtensionType::WhiteDaysMessage);
}
