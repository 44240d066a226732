//! The notification store: notifications of jobs and their state markers.

use vstd::prelude::*;
use crate::db::database::{Database, DatabaseView, Notification, NotificationView};
use crate::db::tables::{
    JobIdAndNotification, JobNotification, JobUuid, NotificationData, NotificationDataView,
    NotificationState, split_id,
};
use crate::error::StoreError;

verus! {

/// The notification that stands under a key, as the engine wants it: both
/// identifiers in two segments, the payload, and the states in the order of
/// their rows.
pub open spec fn stored_notification(db: DatabaseView, id: u128) -> NotificationDataView
    recommends
        db.notifications.contains_key(id),
{
    NotificationDataView {
        job_id: Some(
            JobIdAndNotification {
                job_id: Some(split_id(db.notifications[id].job_id)),
                notification_id: Some(split_id(id)),
            },
        ),
        job_states: db.states_of(id),
        extra: db.notifications[id].extra,
    }
}

/// What storing a notification leaves behind, and what it returns.
///
/// Data without both identifiers is not valid, and a notification of a job
/// that does not exist breaks a constraint: both are refused with
/// `CantAdd`, and nothing is written. Otherwise the row is upserted and the
/// notification's states are replaced by those given, each once.
pub open spec fn notify_outcome(db: DatabaseView, data: NotificationDataView) -> (
    DatabaseView,
    Result<(), StoreError>,
) {
    match data.keys() {
        None => (db, Err(StoreError::CantAdd)),
        Some((job_id, id)) => if db.jobs.contains_key(job_id) {
            (
                db.with_notification(id, NotificationView { job_id, extra: data.extra }).with_states(
                    id,
                    data.job_states,
                ),
                Ok(()),
            )
        } else {
            (db, Err(StoreError::CantAdd))
        },
    }
}

/// The keys of the job and of the notification that the data names. Data
/// that names not both is not valid and is refused with `CantAdd`.
pub fn notification_keys(data: &NotificationData) -> (r: Result<(u128, u128), StoreError>)
    ensures
        match r {
            Ok(keys) => data@.keys() == Some(keys),
            Err(e) => e == StoreError::CantAdd && data@.keys() is None,
        },
{
    match data.job_id_and_notification_id_from_data() {
        Some(keys) => Ok(keys),
        None => Err(StoreError::CantAdd),
    }
}

/// Builds the answer of `get` from the selected row of a notification, if
/// any, and the selected rows of its states: `NotFound` without the row,
/// else the notification with the states in the order of their rows.
pub fn notification_of_rows(id: u128, row: Option<Notification>, states: &Vec<NotificationState>)
    -> (r: Result<NotificationData, StoreError>)
    ensures
        match r {
            Ok(data) => {
                &&& row matches Some(found)
                &&& data.job_id == Some(
                    JobIdAndNotification {
                        job_id: Some(split_id(found.job_id)),
                        notification_id: Some(split_id(id)),
                    },
                )
                &&& data.extra@ == found.extra@
                &&& data.job_states@.len() == states@.len()
                &&& forall|i: int|
                    0 <= i < states@.len() ==> #[trigger] data.job_states@[i] == states@[i].state
            },
            Err(e) => e == StoreError::NotFound && row is None,
        },
{
    let row = match row {
        Some(row) => row,
        None => {
            return Err(StoreError::NotFound);
        },
    };
    let mut job_states: Vec<i32> = Vec::new();
    let mut i: usize = 0;
    while i < states.len()
        invariant
            i <= states@.len(),
            job_states@.len() == i,
            forall|j: int| 0 <= j < i ==> #[trigger] job_states@[j] == states@[j].state,
        decreases states@.len() - i,
    {
        job_states.push(states[i].state);
        i += 1;
    }
    Ok(
        NotificationData {
            job_id: Some(
                JobIdAndNotification {
                    job_id: Some(JobUuid::from_u128(row.job_id)),
                    notification_id: Some(JobUuid::from_u128(id)),
                },
            ),
            job_states,
            extra: row.extra,
        },
    )
}

/// The notification store of the scheduler engine, over a database that
/// the caller holds.
#[derive(Clone, Copy, Debug)]
pub struct PostgresNotificationStore;

impl PostgresNotificationStore {
    pub fn new() -> (store: Self) {
        PostgresNotificationStore
    }

    /// Nothing to prepare: always `Ok`.
    pub fn init(&mut self) -> (r: Result<(), StoreError>)
        ensures
            r == Ok::<(), StoreError>(()),
    {
        Ok(())
    }

    /// The store is ready from the start: always `Ok(true)`.
    pub fn inited(&self) -> (r: Result<bool, StoreError>)
        ensures
            r == Ok::<bool, StoreError>(true),
    {
        Ok(true)
    }

    /// The notification under an identifier, with its states; `NotFound`
    /// where there is none.
    pub fn get(&self, db: &Database, id: u128) -> (r: Result<NotificationData, StoreError>)
        requires
            db.wf(),
        ensures
            match r {
                Ok(data) => db@.notifications.contains_key(id) && data@ == stored_notification(
                    db@,
                    id,
                ),
                Err(e) => e == StoreError::NotFound && !db@.notifications.contains_key(id),
            },
    {
        let row = db.select_notification(id);
        let states = db.select_states(id);
        let r = notification_of_rows(id, row, &states);
        proof {
            if r is Ok {
                assert(r->Ok_0@.job_states =~= db@.states_of(id));
            }
        }
        r
    }

    /// Stores a notification: its row, and its states in place of those it had.
    pub fn add_or_update(&self, db: &mut Database, data: NotificationData) -> (r: Result<
        (),
        StoreError,
    >)
        requires
            old(db).wf(),
        ensures
            final(db).wf(),
            (final(db)@, r) == notify_outcome(old(db)@, data@),
    {
        let (job_id, id) = match notification_keys(&data) {
            Ok(keys) => keys,
            Err(e) => {
                return Err(e);
            },
        };
        let NotificationData { job_id: _, job_states, extra } = data;
        match db.upsert_notification(id, Notification { job_id, extra }) {
            Ok(()) => {},
            Err(_) => {
                return Err(StoreError::CantAdd);
            },
        }
        match db.replace_states(id, &job_states) {
            Ok(()) => Ok(()),
            Err(e) => Err(e),
        }
    }

    /// Deletes a notification and its states. Deleting one that is not
    /// there is no error.
    pub fn delete(&self, db: &mut Database, id: u128) -> (r: Result<(), StoreError>)
        requires
            old(db).wf(),
        ensures
            final(db).wf(),
            r == Ok::<(), StoreError>(()),
            final(db)@ == old(db)@.without_notification(id),
    {
        db.delete_notification(id);
        Ok(())
    }

    /// Deletes every notification of a job, and their states.
    pub fn delete_for_job(&self, db: &mut Database, job_id: u128) -> (r: Result<(), StoreError>)
        requires
            old(db).wf(),
        ensures
            final(db).wf(),
            r == Ok::<(), StoreError>(()),
            final(db)@ == old(db)@.without_notifications_of(job_id),
    {
        db.delete_notifications_of(job_id);
        Ok(())
    }

    /// Removes one state marker of a notification; says whether a row was
    /// removed. A marker that is not there is no error.
    pub fn delete_notification_for_state(
        &self,
        db: &mut Database,
        notification_id: u128,
        state: JobNotification,
    ) -> (r: Result<bool, StoreError>)
        requires
            old(db).wf(),
        ensures
            final(db).wf(),
            r == Ok::<bool, StoreError>(
                old(db)@.states_of(notification_id).contains(state.spec_code()),
            ),
            final(db)@ == old(db)@.without_state(notification_id, state.spec_code()),
    {
        let ghost before = db@;
        let found = db.delete_state(notification_id, state.code());
        proof {
            crate::db::table::lemma_tags_of_contains(
                before.notification_states,
                notification_id,
                state.spec_code(),
            );
        }
        Ok(found)
    }

    /// The notifications of a job that carry a state, each once, in no
    /// particular order.
    pub fn list_notification_guids_for_job_and_state(
        &self,
        db: &Database,
        job: u128,
        state: JobNotification,
    ) -> (r: Result<Vec<u128>, StoreError>)
        requires
            db.wf(),
        ensures
            r matches Ok(list) && list@.no_duplicates() && forall|k: u128| #[trigger]
                list@.contains(k) <==> db@.notifies(k, job, Some(state.spec_code())),
    {
        Ok(db.notification_ids(job, Some(state.code())))
    }

    /// The notifications of a job, each once, in no particular order.
    pub fn list_notification_guids_for_job_id(&self, db: &Database, job_id: u128) -> (r: Result<
        Vec<u128>,
        StoreError,
    >)
        requires
            db.wf(),
        ensures
            r matches Ok(list) && list@.no_duplicates() && forall|k: u128| #[trigger]
                list@.contains(k) <==> db@.notifies(k, job_id, None),
    {
        Ok(db.notification_ids(job_id, None))
    }
}

} // verus!
