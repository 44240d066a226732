//! The relational model behind the stores: six tables, their foreign keys,
//! and the statements that the stores run on them.

use vstd::prelude::*;
use crate::db::table::{
    Child, Marker, MarkerTable, Row, Table, lemma_filter_keeps_distinct, lemma_with_markers,
    not_owned_by, other_than, owned_in, tags_of, with_markers,
};
use crate::db::tables::{Job, JobView, NotificationState, clone_bytes};
use crate::error::StoreError;

verus! {

/// One row of `users`, under the user's identifier.
#[derive(Clone, Copy, Debug, PartialEq, Eq, Structural)]
pub struct User {
    pub chat_id: i64,
}

/// One row of `users_jobs`, under the row's own identifier: a job and the
/// user who owns it.
#[derive(Clone, Copy, Debug, PartialEq, Eq, Structural)]
pub struct UserJob {
    pub job_id: u128,
    pub user_id: u128,
}

impl Child for UserJob {
    open spec fn spec_parent(&self) -> u128 {
        self.job_id
    }

    fn parent(&self) -> (p: u128) {
        self.job_id
    }
}

/// One row of `notifications`, under the notification's identifier.
#[derive(Debug, PartialEq, Eq)]
pub struct Notification {
    pub job_id: u128,
    pub extra: Vec<u8>,
}

/// Mathematical value of a [`Notification`] row.
pub struct NotificationView {
    pub job_id: u128,
    pub extra: Seq<u8>,
}

impl View for Notification {
    type V = NotificationView;

    open spec fn view(&self) -> NotificationView {
        NotificationView { job_id: self.job_id, extra: self.extra@ }
    }
}

impl Child for Notification {
    open spec fn spec_parent(&self) -> u128 {
        self.job_id
    }

    fn parent(&self) -> (p: u128) {
        self.job_id
    }
}

impl Row for Notification {
    fn copy_row(&self) -> (r: Notification) {
        Notification { job_id: self.job_id, extra: clone_bytes(&self.extra) }
    }
}

impl Clone for Notification {
    fn clone(&self) -> (r: Notification)
        ensures
            r@ == self@,
    {
        Notification { job_id: self.job_id, extra: clone_bytes(&self.extra) }
    }
}

/// The rows of `users_jobs` whose job is one of the given keys.
pub open spec fn users_jobs_in(rows: Map<u128, UserJob>, jobs: Set<u128>) -> Map<u128, UserJob> {
    Map::new(|k: u128| rows.contains_key(k) && jobs.contains(rows[k].job_id), |k: u128| rows[k])
}

/// The rows of `notifications` whose job is one of the given keys.
pub open spec fn notifications_in(rows: Map<u128, NotificationView>, jobs: Set<u128>) -> Map<
    u128,
    NotificationView,
> {
    Map::new(|k: u128| rows.contains_key(k) && jobs.contains(rows[k].job_id), |k: u128| rows[k])
}

/// The columns that the query for due jobs selects.
#[derive(Clone, Copy, Debug, PartialEq, Eq, Structural)]
pub struct TickRow {
    pub id: u128,
    pub next_tick: Option<i64>,
    pub job_type: i32,
    pub last_tick: Option<i64>,
}

/// The tick columns of a job row.
pub open spec fn tick_row(job: JobView) -> TickRow {
    TickRow { id: job.id, next_tick: job.next_tick, job_type: job.job_type, last_tick: job.last_tick }
}

/// A job is due at `now` when its next tick is set (not 0, not null) and
/// not after `now`.
pub open spec fn is_due(job: JobView, now: i64) -> bool {
    job.next_tick matches Some(t) && 0 < t <= now
}

/// A job is pending at `now` when its next tick is set and after `now`.
pub open spec fn is_pending(job: JobView, now: i64) -> bool {
    job.next_tick matches Some(t) && 0 < t && now < t
}

/// The whole content of the database, as mathematics: keyed tables are maps
/// from the key, the two marker tables are sequences, oldest row first.
///
/// In `job_extensions` a marker's owner is the job and its tag the extension
/// type; in `notification_states` the owner is the notification and the tag
/// the state.
pub struct DatabaseView {
    pub users: Map<u128, User>,
    pub jobs: Map<u128, JobView>,
    pub job_extensions: Seq<Marker>,
    pub users_jobs: Map<u128, UserJob>,
    pub notifications: Map<u128, NotificationView>,
    pub notification_states: Seq<Marker>,
}

impl DatabaseView {
    /// The constraints of the schema: a job row carries its own key, every
    /// foreign key names a row that exists, a chat has one user, and a
    /// notification carries a state at most once.
    pub open spec fn wf(self) -> bool {
        &&& forall|id: u128| #[trigger] self.jobs.contains_key(id) ==> self.jobs[id].id == id
        &&& forall|i: int|
            0 <= i < self.job_extensions.len() ==> self.jobs.contains_key(
                #[trigger] self.job_extensions[i].owner,
            )
        &&& forall|k: u128| #[trigger]
            self.users_jobs.contains_key(k) ==> self.jobs.contains_key(self.users_jobs[k].job_id)
                && self.users.contains_key(self.users_jobs[k].user_id)
        &&& forall|k: u128| #[trigger]
            self.notifications.contains_key(k) ==> self.jobs.contains_key(
                self.notifications[k].job_id,
            )
        &&& forall|i: int|
            0 <= i < self.notification_states.len() ==> self.notifications.contains_key(
                #[trigger] self.notification_states[i].owner,
            )
        &&& self.notification_states.no_duplicates()
        &&& forall|a: u128, b: u128|
            #![trigger self.users[a], self.users[b]]
            self.users.contains_key(a) && self.users.contains_key(b) && a != b
                ==> self.users[a].chat_id != self.users[b].chat_id
    }

    /// The database with no rows.
    pub open spec fn empty() -> DatabaseView {
        DatabaseView {
            users: Map::empty(),
            jobs: Map::empty(),
            job_extensions: Seq::empty(),
            users_jobs: Map::empty(),
            notifications: Map::empty(),
            notification_states: Seq::empty(),
        }
    }

    /// Whether a chat has a user.
    pub open spec fn chat_known(self, chat_id: i64) -> bool {
        exists|id: u128| #[trigger] self.users.contains_key(id) && self.users[id].chat_id == chat_id
    }

    /// The user of a chat that has one.
    pub open spec fn user_of_chat(self, chat_id: i64) -> u128 {
        choose|id: u128| #[trigger] self.users.contains_key(id) && self.users[id].chat_id == chat_id
    }

    /// After `INSERT INTO users`: a new user for a chat that has none.
    pub open spec fn with_user(self, id: u128, chat_id: i64) -> DatabaseView {
        DatabaseView { users: self.users.insert(id, User { chat_id }), ..self }
    }

    /// After the upsert of a job row: the row stands under its key, in place
    /// of the one that was there, if any. No other table changes.
    pub open spec fn with_job(self, job: JobView) -> DatabaseView {
        DatabaseView { jobs: self.jobs.insert(job.id, job), ..self }
    }

    /// After `UPDATE jobs SET next_tick, last_tick`: the two columns of the
    /// row under the key are overwritten; without such a row nothing changes.
    pub open spec fn with_ticks(self, id: u128, next_tick: i64, last_tick: Option<i64>)
        -> DatabaseView {
        if self.jobs.contains_key(id) {
            self.with_job(
                JobView { next_tick: Some(next_tick), last_tick, ..self.jobs[id] },
            )
        } else {
            self
        }
    }

    /// Whether `row` is what the query for due jobs selects from a job that
    /// is due at `now`.
    pub open spec fn due_row(self, now: i64, row: TickRow) -> bool {
        &&& self.jobs.contains_key(row.id)
        &&& is_due(self.jobs[row.id], now)
        &&& row == tick_row(self.jobs[row.id])
    }

    /// Whether some job is scheduled to run at `tick`, which is after `now`.
    pub open spec fn scheduled_at(self, now: i64, tick: i64) -> bool {
        exists|id: u128| #[trigger]
            self.jobs.contains_key(id) && is_pending(self.jobs[id], now) && self.jobs[id].next_tick
                == Some(tick)
    }

    /// Whether no job is scheduled after `now` and before `tick`.
    pub open spec fn none_before(self, now: i64, tick: i64) -> bool {
        forall|id: u128| #[trigger]
            self.jobs.contains_key(id) && is_pending(self.jobs[id], now) ==> tick
                <= self.jobs[id].next_tick->0
    }

    /// Whether no job is scheduled after `now`.
    pub open spec fn none_pending(self, now: i64) -> bool {
        forall|id: u128| #[trigger] self.jobs.contains_key(id) ==> !is_pending(self.jobs[id], now)
    }

    /// Whether the row of `users_jobs` under key `k` gives `user` a job that
    /// has the extension type `ext`.
    pub open spec fn links(self, k: u128, user: u128, ext: i32) -> bool {
        &&& self.users_jobs.contains_key(k)
        &&& self.users_jobs[k].user_id == user
        &&& self.job_extensions.contains(Marker { owner: self.users_jobs[k].job_id, tag: ext })
    }

    /// Whether `user` owns a job of extension type `ext`.
    pub open spec fn linked(self, user: u128, ext: i32) -> bool {
        exists|k: u128| #[trigger] self.links(k, user, ext)
    }

    /// Whether `k` is the key of a notification of the job; with a state,
    /// of one that carries it.
    pub open spec fn notifies(self, k: u128, job_id: u128, state: Option<i32>) -> bool {
        &&& self.notifications.contains_key(k)
        &&& self.notifications[k].job_id == job_id
        &&& state matches Some(s) ==> self.notification_states.contains(
            Marker { owner: k, tag: s },
        )
    }

    /// Whether any job has the extension type `ext`.
    pub open spec fn extension_in_use(self, ext: i32) -> bool {
        exists|i: int|
            0 <= i < self.job_extensions.len() && (#[trigger] self.job_extensions[i]).tag == ext
    }

    /// After `INSERT INTO job_extensions`.
    pub open spec fn with_extension(self, job_id: u128, ext: i32) -> DatabaseView {
        DatabaseView {
            job_extensions: self.job_extensions.push(Marker { owner: job_id, tag: ext }),
            ..self
        }
    }

    /// Whether `users_jobs` takes a row: its key is new, its job and its user exist.
    pub open spec fn accepts_user_job(self, id: u128, job_id: u128, user_id: u128) -> bool {
        &&& !self.users_jobs.contains_key(id)
        &&& self.jobs.contains_key(job_id)
        &&& self.users.contains_key(user_id)
    }

    /// After `INSERT INTO users_jobs`.
    pub open spec fn with_user_job(self, id: u128, job_id: u128, user_id: u128) -> DatabaseView {
        DatabaseView { users_jobs: self.users_jobs.insert(id, UserJob { job_id, user_id }), ..self }
    }

    /// An insert into `users` for a new chat under a new key keeps the constraints.
    pub proof fn lemma_with_user_wf(self, id: u128, chat_id: i64)
        requires
            self.wf(),
            !self.users.contains_key(id),
            !self.chat_known(chat_id),
        ensures
            self.with_user(id, chat_id).wf(),
    {
        let after = self.with_user(id, chat_id);
        assert forall|k: u128| #[trigger] after.users_jobs.contains_key(k) implies (
        after.jobs.contains_key(after.users_jobs[k].job_id) && after.users.contains_key(
            after.users_jobs[k].user_id,
        )) by {
            assert(self.users_jobs.contains_key(k));
        }
        assert forall|a: u128, b: u128|
            #![trigger after.users[a], after.users[b]]
            after.users.contains_key(a) && after.users.contains_key(b) && a != b
                implies after.users[a].chat_id != after.users[b].chat_id by {
            if a != id && b != id {
                assert(self.users[a].chat_id != self.users[b].chat_id);
            } else if a == id {
                assert(self.users.contains_key(b));
            } else {
                assert(self.users.contains_key(a));
            }
        }
    }

    /// An insert into `job_extensions` for a job that exists keeps the constraints.
    pub proof fn lemma_with_extension_wf(self, job_id: u128, ext: i32)
        requires
            self.wf(),
            self.jobs.contains_key(job_id),
        ensures
            self.with_extension(job_id, ext).wf(),
    {
        let after = self.with_extension(job_id, ext);
        assert forall|i: int| 0 <= i < after.job_extensions.len() implies after.jobs.contains_key(
            #[trigger] after.job_extensions[i].owner,
        ) by {
            if i < self.job_extensions.len() {
                assert(after.job_extensions[i] == self.job_extensions[i]);
            }
        }
        assert forall|a: u128, b: u128|
            #![trigger after.users[a], after.users[b]]
            after.users.contains_key(a) && after.users.contains_key(b) && a != b
                implies after.users[a].chat_id != after.users[b].chat_id by {
            assert(self.users[a].chat_id != self.users[b].chat_id);
        }
    }

    /// An insert into `users_jobs` that the table takes keeps the constraints.
    pub proof fn lemma_with_user_job_wf(self, id: u128, job_id: u128, user_id: u128)
        requires
            self.wf(),
            self.accepts_user_job(id, job_id, user_id),
        ensures
            self.with_user_job(id, job_id, user_id).wf(),
    {
        let after = self.with_user_job(id, job_id, user_id);
        assert forall|k: u128| #[trigger] after.users_jobs.contains_key(k) implies (
        after.jobs.contains_key(after.users_jobs[k].job_id) && after.users.contains_key(
            after.users_jobs[k].user_id,
        )) by {
            if k != id {
                assert(self.users_jobs.contains_key(k));
            }
        }
        assert forall|a: u128, b: u128|
            #![trigger after.users[a], after.users[b]]
            after.users.contains_key(a) && after.users.contains_key(b) && a != b
                implies after.users[a].chat_id != after.users[b].chat_id by {
            assert(self.users[a].chat_id != self.users[b].chat_id);
        }
    }

    /// An upsert of a job row keeps the constraints.
    pub proof fn lemma_with_job_wf(self, job: JobView)
        requires
            self.wf(),
        ensures
            self.with_job(job).wf(),
    {
        let after = self.with_job(job);
        assert forall|id: u128| #[trigger] after.jobs.contains_key(id) implies after.jobs[id].id
            == id by {
            if id != job.id {
                assert(self.jobs.contains_key(id));
            }
        }
        assert forall|i: int| 0 <= i < after.job_extensions.len() implies after.jobs.contains_key(
            #[trigger] after.job_extensions[i].owner,
        ) by {
            assert(self.jobs.contains_key(self.job_extensions[i].owner));
        }
        assert forall|k: u128| #[trigger] after.users_jobs.contains_key(k) implies (
        after.jobs.contains_key(after.users_jobs[k].job_id) && after.users.contains_key(
            after.users_jobs[k].user_id,
        )) by {
            assert(self.users_jobs.contains_key(k));
        }
        assert forall|k: u128| #[trigger] after.notifications.contains_key(k) implies (
        after.jobs.contains_key(after.notifications[k].job_id)) by {
            assert(self.notifications.contains_key(k));
        }
    }

    /// After `DELETE FROM jobs`: the job is gone, and with it every row that
    /// names it, and every state of a notification that names it.
    pub open spec fn without_job(self, id: u128) -> DatabaseView {
        let jobs = self.jobs.remove(id);
        let notifications = notifications_in(self.notifications, jobs.dom());
        DatabaseView {
            users: self.users,
            jobs,
            job_extensions: self.job_extensions.filter(owned_in(jobs.dom())),
            users_jobs: users_jobs_in(self.users_jobs, jobs.dom()),
            notifications,
            notification_states: self.notification_states.filter(owned_in(notifications.dom())),
        }
    }
}

/// The rows of `notifications` whose job is not the given one.
pub open spec fn notifications_not_of(rows: Map<u128, NotificationView>, job_id: u128) -> Map<
    u128,
    NotificationView,
> {
    Map::new(|k: u128| rows.contains_key(k) && rows[k].job_id != job_id, |k: u128| rows[k])
}

impl DatabaseView {
    /// After the upsert of a notification row.
    pub open spec fn with_notification(self, id: u128, row: NotificationView) -> DatabaseView {
        DatabaseView { notifications: self.notifications.insert(id, row), ..self }
    }

    /// After a notification's states were replaced: its old states are gone,
    /// and it has each of `states` once, in their order, behind the states of
    /// the other notifications.
    pub open spec fn with_states(self, id: u128, states: Seq<i32>) -> DatabaseView {
        DatabaseView {
            notification_states: with_markers(
                self.notification_states.filter(not_owned_by(id)),
                id,
                states,
            ),
            ..self
        }
    }

    /// After `DELETE FROM notifications WHERE id`: the row is gone, and its
    /// states with it.
    pub open spec fn without_notification(self, id: u128) -> DatabaseView {
        let notifications = self.notifications.remove(id);
        DatabaseView {
            notifications,
            notification_states: self.notification_states.filter(owned_in(notifications.dom())),
            ..self
        }
    }

    /// After `DELETE FROM notifications WHERE job_id`: the notifications of
    /// the job are gone, and their states with them.
    pub open spec fn without_notifications_of(self, job_id: u128) -> DatabaseView {
        let notifications = notifications_not_of(self.notifications, job_id);
        DatabaseView {
            notifications,
            notification_states: self.notification_states.filter(owned_in(notifications.dom())),
            ..self
        }
    }

    /// After `DELETE FROM notification_states WHERE id AND state`.
    pub open spec fn without_state(self, id: u128, state: i32) -> DatabaseView {
        DatabaseView {
            notification_states: self.notification_states.filter(
                other_than(Marker { owner: id, tag: state }),
            ),
            ..self
        }
    }

    /// The states of a notification, in the order of their rows.
    pub open spec fn states_of(self, id: u128) -> Seq<i32> {
        tags_of(self.notification_states, id)
    }

    /// A change that touches the two notification tables only, and leaves
    /// them sound, keeps the constraints.
    pub proof fn lemma_notification_change_wf(self, after: DatabaseView)
        requires
            self.wf(),
            after.users == self.users,
            after.jobs == self.jobs,
            after.job_extensions == self.job_extensions,
            after.users_jobs == self.users_jobs,
            forall|k: u128| #[trigger]
                after.notifications.contains_key(k) ==> after.jobs.contains_key(
                    after.notifications[k].job_id,
                ),
            forall|i: int|
                0 <= i < after.notification_states.len() ==> after.notifications.contains_key(
                    #[trigger] after.notification_states[i].owner,
                ),
            after.notification_states.no_duplicates(),
        ensures
            after.wf(),
    {
        assert forall|i: int| 0 <= i < after.job_extensions.len() implies after.jobs.contains_key(
            #[trigger] after.job_extensions[i].owner,
        ) by {
            assert(self.jobs.contains_key(self.job_extensions[i].owner));
        }
        assert forall|k: u128| #[trigger] after.users_jobs.contains_key(k) implies (
        after.jobs.contains_key(after.users_jobs[k].job_id) && after.users.contains_key(
            after.users_jobs[k].user_id,
        )) by {
            assert(self.users_jobs.contains_key(k));
        }
        assert forall|a: u128, b: u128|
            #![trigger after.users[a], after.users[b]]
            after.users.contains_key(a) && after.users.contains_key(b) && a != b
                implies after.users[a].chat_id != after.users[b].chat_id by {
            assert(self.users[a].chat_id != self.users[b].chat_id);
        }
    }

    /// An upsert of a notification of a job that exists keeps the constraints.
    pub proof fn lemma_with_notification_wf(self, id: u128, row: NotificationView)
        requires
            self.wf(),
            self.jobs.contains_key(row.job_id),
        ensures
            self.with_notification(id, row).wf(),
    {
        let after = self.with_notification(id, row);
        assert forall|k: u128| #[trigger] after.notifications.contains_key(k) implies (
        after.jobs.contains_key(after.notifications[k].job_id)) by {
            if k != id {
                assert(self.notifications.contains_key(k));
            }
        }
        assert forall|i: int|
            0 <= i < after.notification_states.len() implies after.notifications.contains_key(
            #[trigger] after.notification_states[i].owner,
        ) by {
            assert(self.notifications.contains_key(self.notification_states[i].owner));
        }
        self.lemma_notification_change_wf(after);
    }

    /// Replacing the states of a notification that exists keeps the constraints.
    pub proof fn lemma_with_states_wf(self, id: u128, states: Seq<i32>)
        requires
            self.wf(),
            self.notifications.contains_key(id),
        ensures
            self.with_states(id, states).wf(),
    {
        let after = self.with_states(id, states);
        let base = self.notification_states.filter(not_owned_by(id));
        lemma_filter_keeps_distinct(self.notification_states, not_owned_by(id));
        lemma_with_markers(base, id, states);
        assert forall|i: int|
            0 <= i < after.notification_states.len() implies after.notifications.contains_key(
            #[trigger] after.notification_states[i].owner,
        ) by {
            let m = after.notification_states[i];
            if base.contains(m) {
                let j = choose|j: int| 0 <= j < base.len() && base[j] == m;
                assert(self.notification_states.contains(base[j]));
                let t = choose|t: int|
                    0 <= t < self.notification_states.len() && self.notification_states[t] == m;
                assert(self.notifications.contains_key(self.notification_states[t].owner));
            }
        }
        assert forall|k: u128| #[trigger] after.notifications.contains_key(k) implies (
        after.jobs.contains_key(after.notifications[k].job_id)) by {
            assert(self.notifications.contains_key(k));
        }
        self.lemma_notification_change_wf(after);
    }

    /// Deleting notifications, and the states of those that went, keeps the
    /// constraints.
    pub proof fn lemma_fewer_notifications_wf(self, kept: Map<u128, NotificationView>)
        requires
            self.wf(),
            forall|k: u128| #[trigger]
                kept.contains_key(k) ==> self.notifications.contains_key(k) && kept[k]
                    == self.notifications[k],
        ensures
            (DatabaseView {
                notifications: kept,
                notification_states: self.notification_states.filter(owned_in(kept.dom())),
                ..self
            }).wf(),
    {
        let after = DatabaseView {
            notifications: kept,
            notification_states: self.notification_states.filter(owned_in(kept.dom())),
            ..self
        };
        lemma_filter_keeps_distinct(self.notification_states, owned_in(kept.dom()));
        assert forall|k: u128| #[trigger] after.notifications.contains_key(k) implies (
        after.jobs.contains_key(after.notifications[k].job_id)) by {
            assert(self.notifications.contains_key(k));
        }
        self.lemma_notification_change_wf(after);
    }

    /// Deleting one state keeps the constraints.
    pub proof fn lemma_without_state_wf(self, id: u128, state: i32)
        requires
            self.wf(),
        ensures
            self.without_state(id, state).wf(),
    {
        let after = self.without_state(id, state);
        let pred = other_than(Marker { owner: id, tag: state });
        lemma_filter_keeps_distinct(self.notification_states, pred);
        assert forall|i: int|
            0 <= i < after.notification_states.len() implies after.notifications.contains_key(
            #[trigger] after.notification_states[i].owner,
        ) by {
            let m = after.notification_states[i];
            assert(self.notification_states.contains(m));
            let t = choose|t: int|
                0 <= t < self.notification_states.len() && self.notification_states[t] == m;
            assert(self.notifications.contains_key(self.notification_states[t].owner));
        }
        assert forall|k: u128| #[trigger] after.notifications.contains_key(k) implies (
        after.jobs.contains_key(after.notifications[k].job_id)) by {
            assert(self.notifications.contains_key(k));
        }
        self.lemma_notification_change_wf(after);
    }

    /// A cascading delete of a job keeps the constraints.
    pub proof fn lemma_without_job_wf(self, id: u128)
        requires
            self.wf(),
        ensures
            self.without_job(id).wf(),
    {
        let after = self.without_job(id);
        lemma_filter_keeps_distinct(self.notification_states, owned_in(after.notifications.dom()));
        assert forall|i: int| 0 <= i < after.job_extensions.len() implies after.jobs.contains_key(
            #[trigger] after.job_extensions[i].owner,
        ) by {
            self.job_extensions.lemma_filter_pred(owned_in(after.jobs.dom()), i);
        }
        assert forall|a: u128, b: u128|
            #![trigger after.users[a], after.users[b]]
            after.users.contains_key(a) && after.users.contains_key(b) && a != b
                implies after.users[a].chat_id != after.users[b].chat_id by {
            assert(self.users[a].chat_id != self.users[b].chat_id);
        }
    }
}

/// The database: the six tables of the schema.
pub struct Database {
    users: Table<User>,
    jobs: Table<Job>,
    job_extensions: MarkerTable,
    users_jobs: Table<UserJob>,
    notifications: Table<Notification>,
    notification_states: MarkerTable,
}

impl View for Database {
    type V = DatabaseView;

    closed spec fn view(&self) -> DatabaseView {
        DatabaseView {
            users: self.users@,
            jobs: self.jobs@.map_values(|j: Job| j@),
            job_extensions: self.job_extensions@,
            users_jobs: self.users_jobs@,
            notifications: self.notifications@.map_values(|n: Notification| n@),
            notification_states: self.notification_states@,
        }
    }
}

impl Database {
    /// The tables are sound and the constraints of the schema hold.
    pub closed spec fn wf(&self) -> bool {
        &&& self.users.wf()
        &&& self.jobs.wf()
        &&& self.users_jobs.wf()
        &&& self.notifications.wf()
        &&& self@.wf()
    }

    /// What `wf` promises of the content.
    pub proof fn lemma_wf(&self)
        requires
            self.wf(),
        ensures
            self@.wf(),
    {
    }

    /// A database with no rows.
    pub fn new() -> (db: Database)
        ensures
            db.wf(),
            db@ == DatabaseView::empty(),
    {
        let db = Database {
            users: Table::new(),
            jobs: Table::new(),
            job_extensions: MarkerTable::new(),
            users_jobs: Table::new(),
            notifications: Table::new(),
            notification_states: MarkerTable::new(),
        };
        proof {
            assert(db@.jobs =~= Map::<u128, JobView>::empty());
            assert(db@.notifications =~= Map::<u128, NotificationView>::empty());
        }
        db
    }

    /// Upserts a job row: inserts it, or overwrites the row with its key.
    pub fn upsert_job(&mut self, job: Job)
        requires
            old(self).wf(),
        ensures
            final(self).wf(),
            final(self)@ == old(self)@.with_job(job@),
    {
        let ghost before = self@;
        let id = job.id;
        self.jobs.insert(id, job);
        proof {
            assert(self@.jobs =~= before.jobs.insert(job@.id, job@));
            assert(self@ == before.with_job(job@));
            before.lemma_with_job_wf(job@);
        }
    }

    /// The job row under a key, if there is one.
    pub fn select_job(&self, id: u128) -> (r: Option<Job>)
        requires
            self.wf(),
        ensures
            match r {
                Some(job) => self@.jobs.contains_key(id) && job@ == self@.jobs[id],
                None => !self@.jobs.contains_key(id),
            },
    {
        match self.jobs.get(id) {
            Some(job) => Some(job.clone()),
            None => None,
        }
    }

    /// Deletes a job row and, as the foreign keys cascade, every row that
    /// names the job; says whether the job was there.
    pub fn delete_job(&mut self, id: u128) -> (found: bool)
        requires
            old(self).wf(),
        ensures
            final(self).wf(),
            found == old(self)@.jobs.contains_key(id),
            final(self)@ == old(self)@.without_job(id),
    {
        let ghost before = self@;
        let found = self.jobs.remove(id);
        self.job_extensions.retain_owners(&self.jobs);
        self.users_jobs.retain_children(&self.jobs);
        self.notifications.retain_children(&self.jobs);
        self.notification_states.retain_owners(&self.notifications);
        proof {
            let after = before.without_job(id);
            assert(self@.jobs =~= after.jobs);
            assert(self.jobs@.dom() =~= after.jobs.dom());
            assert(self@.users_jobs =~= after.users_jobs);
            assert(self@.notifications =~= after.notifications);
            assert(self.notifications@.dom() =~= after.notifications.dom());
            assert(self@ == after);
            before.lemma_without_job_wf(id);
        }
        found
    }

    /// Overwrites the tick columns of the job under a key; says whether
    /// there was such a job.
    pub fn update_ticks(&mut self, id: u128, next_tick: i64, last_tick: Option<i64>) -> (found:
        bool)
        requires
            old(self).wf(),
        ensures
            final(self).wf(),
            found == old(self)@.jobs.contains_key(id),
            final(self)@ == old(self)@.with_ticks(id, next_tick, last_tick),
    {
        let ghost before = self@;
        proof {
            self.lemma_wf();
        }
        match self.jobs.get(id) {
            Some(row) => {
                let mut job = row.clone();
                job.next_tick = Some(next_tick);
                job.last_tick = last_tick;
                assert(job@ == JobView {
                    next_tick: Some(next_tick),
                    last_tick,
                    ..before.jobs[id]
                });
                self.upsert_job(job);
                true
            },
            None => false,
        }
    }

    /// The tick columns of every job that is due at `now`, each job once.
    pub fn select_due(&self, now: i64) -> (r: Vec<TickRow>)
        requires
            self.wf(),
        ensures
            forall|t: TickRow| #[trigger] r@.contains(t) <==> self@.due_row(now, t),
            forall|a: int, b: int| 0 <= a < b < r@.len() ==> r@[a].id != r@[b].id,
    {
        let mut out: Vec<TickRow> = Vec::new();
        let ghost mut src: Seq<int> = Seq::empty();
        let mut i: usize = 0;
        let n = self.jobs.len();
        while i < n
            invariant
                self.wf(),
                n == self.jobs.spec_len(),
                i <= n,
                src.len() == out@.len(),
                forall|a: int|
                    0 <= a < out@.len() ==> 0 <= #[trigger] src[a] < i && out@[a] == tick_row(
                        self.jobs.spec_row(src[a])@,
                    ) && is_due(self.jobs.spec_row(src[a])@, now),
                forall|a: int, b: int| 0 <= a < b < out@.len() ==> src[a] < src[b],
                forall|j: int|
                    0 <= j < i && is_due(#[trigger] self.jobs.spec_row(j)@, now) ==> out@.contains(
                        tick_row(self.jobs.spec_row(j)@),
                    ),
            decreases n - i,
        {
            let row = self.jobs.row_at(i);
            let due = match row.next_tick {
                Some(t) => 0 < t && t <= now,
                None => false,
            };
            if due {
                let t = TickRow {
                    id: row.id,
                    next_tick: row.next_tick,
                    job_type: row.job_type,
                    last_tick: row.last_tick,
                };
                let ghost prev = out@;
                out.push(t);
                proof {
                    src = src.push(i as int);
                    assert(out@[prev.len() as int] == t);
                    assert forall|j: int|
                        0 <= j < i + 1 && is_due(
                            #[trigger] self.jobs.spec_row(j)@,
                            now,
                        ) implies out@.contains(tick_row(self.jobs.spec_row(j)@)) by {
                        if j < i {
                            let a = choose|a: int|
                                0 <= a < prev.len() && prev[a] == tick_row(
                                    self.jobs.spec_row(j)@,
                                );
                            assert(out@[a] == prev[a]);
                        }
                    }
                }
            }
            i += 1;
        }
        proof {
            self.lemma_wf();
            assert forall|t: TickRow| #[trigger] out@.contains(t) implies self@.due_row(now, t) by {
                let a = choose|a: int| 0 <= a < out@.len() && out@[a] == t;
                self.jobs.lemma_position(src[a]);
                let k = self.jobs.spec_key(src[a]);
                assert(self@.jobs.contains_key(k));
                assert(self@.jobs[k] == self.jobs.spec_row(src[a])@);
            }
            assert forall|t: TickRow| self@.due_row(now, t) implies #[trigger] out@.contains(t) by {
                assert(self@.jobs.contains_key(t.id));
                let j = self.jobs.lemma_key(t.id);
                assert(self@.jobs[t.id] == self.jobs.spec_row(j)@);
            }
            assert forall|a: int, b: int| 0 <= a < b < out@.len() implies out@[a].id != out@[b].id by {
                self.jobs.lemma_position(src[a]);
                self.jobs.lemma_position(src[b]);
                self.jobs.lemma_distinct(src[a], src[b]);
                let ka = self.jobs.spec_key(src[a]);
                let kb = self.jobs.spec_key(src[b]);
                assert(self@.jobs.contains_key(ka));
                assert(self@.jobs.contains_key(kb));
            }
        }
        out
    }

    /// The earliest next tick after `now`, if any job is scheduled after `now`.
    pub fn next_tick_after(&self, now: i64) -> (r: Option<i64>)
        requires
            self.wf(),
        ensures
            match r {
                Some(t) => self@.scheduled_at(now, t) && self@.none_before(now, t),
                None => self@.none_pending(now),
            },
    {
        let mut best: Option<i64> = None;
        let ghost mut at: int = 0;
        let mut i: usize = 0;
        let n = self.jobs.len();
        while i < n
            invariant
                self.wf(),
                n == self.jobs.spec_len(),
                i <= n,
                match best {
                    Some(t) => 0 <= at < i && is_pending(self.jobs.spec_row(at)@, now)
                        && self.jobs.spec_row(at)@.next_tick == Some(t) && forall|j: int|
                        0 <= j < i && is_pending(#[trigger] self.jobs.spec_row(j)@, now) ==> t
                            <= self.jobs.spec_row(j)@.next_tick->0,
                    None => forall|j: int|
                        0 <= j < i ==> !is_pending(#[trigger] self.jobs.spec_row(j)@, now),
                },
            decreases n - i,
        {
            let row = self.jobs.row_at(i);
            match row.next_tick {
                Some(t) => {
                    if 0 < t && now < t {
                        let better = match best {
                            Some(b) => t < b,
                            None => true,
                        };
                        if better {
                            best = Some(t);
                            proof {
                                at = i as int;
                            }
                        }
                    }
                },
                None => {},
            }
            i += 1;
        }
        proof {
            match best {
                Some(t) => {
                    self.jobs.lemma_position(at);
                    let k = self.jobs.spec_key(at);
                    assert(self@.jobs.contains_key(k));
                    assert(self@.jobs[k] == self.jobs.spec_row(at)@);
                    assert forall|id: u128| #[trigger]
                        self@.jobs.contains_key(id) && is_pending(self@.jobs[id], now) implies t
                        <= self@.jobs[id].next_tick->0 by {
                        let j = self.jobs.lemma_key(id);
                        assert(self@.jobs[id] == self.jobs.spec_row(j)@);
                    }
                },
                None => {
                    assert forall|id: u128| #[trigger] self@.jobs.contains_key(id) implies !is_pending(
                        self@.jobs[id],
                        now,
                    ) by {
                        let j = self.jobs.lemma_key(id);
                        assert(self@.jobs[id] == self.jobs.spec_row(j)@);
                    }
                },
            }
        }
        best
    }

    /// The user of a chat, if the chat has one.
    pub fn user_of_chat(&self, chat_id: i64) -> (r: Option<u128>)
        requires
            self.wf(),
        ensures
            match r {
                Some(id) => self@.users.contains_key(id) && self@.users[id].chat_id == chat_id
                    && id == self@.user_of_chat(chat_id) && self@.chat_known(chat_id),
                None => !self@.chat_known(chat_id),
            },
    {
        let mut i: usize = 0;
        let n = self.users.len();
        while i < n
            invariant
                self.wf(),
                n == self.users.spec_len(),
                i <= n,
                forall|j: int| 0 <= j < i ==> (#[trigger] self.users.spec_row(j)).chat_id != chat_id,
            decreases n - i,
        {
            if self.users.row_at(i).chat_id == chat_id {
                let id = self.users.key_at(i);
                proof {
                    self.lemma_wf();
                    let other = self@.user_of_chat(chat_id);
                    assert(self@.users.contains_key(other) && self@.users[other].chat_id == chat_id);
                    if other != id {
                        assert(self@.users[id].chat_id != self@.users[other].chat_id);
                    }
                }
                return Some(id);
            }
            i += 1;
        }
        proof {
            if self@.chat_known(chat_id) {
                let id = self@.user_of_chat(chat_id);
                let j = self.users.lemma_key(id);
            }
        }
        None
    }

    /// Registers the user of a chat under a proposed key, and returns the
    /// key that the chat's user has from then on.
    ///
    /// A chat that has a user keeps it, and nothing is written. For a new
    /// chat the user is inserted under `id`; that fails with `CantAdd`,
    /// and writes nothing, exactly when `id` is another user's key.
    pub fn register_user(&mut self, id: u128, chat_id: i64) -> (r: Result<u128, StoreError>)
        requires
            old(self).wf(),
        ensures
            final(self).wf(),
            match r {
                Ok(uid) => if old(self)@.chat_known(chat_id) {
                    uid == old(self)@.user_of_chat(chat_id) && final(self)@ == old(self)@
                } else {
                    uid == id && !old(self)@.users.contains_key(id) && final(self)@ == old(
                        self,
                    )@.with_user(id, chat_id)
                },
                Err(e) => e == StoreError::CantAdd && !old(self)@.chat_known(chat_id) && old(
                    self,
                )@.users.contains_key(id) && final(self)@ == old(self)@,
            },
    {
        let ghost before = self@;
        match self.user_of_chat(chat_id) {
            Some(uid) => Ok(uid),
            None => {
                if self.users.contains_key(id) {
                    Err(StoreError::CantAdd)
                } else {
                    self.users.insert(id, User { chat_id });
                    proof {
                        assert(self@ == before.with_user(id, chat_id));
                        before.lemma_with_user_wf(id, chat_id);
                    }
                    Ok(id)
                }
            },
        }
    }

    /// Whether a user is registered under the key.
    pub fn has_user(&self, id: u128) -> (b: bool)
        requires
            self.wf(),
        ensures
            b == self@.users.contains_key(id),
    {
        self.users.contains_key(id)
    }

    /// Whether a job row stands under the key.
    pub fn has_job(&self, id: u128) -> (b: bool)
        requires
            self.wf(),
        ensures
            b == self@.jobs.contains_key(id),
    {
        let b = self.jobs.contains_key(id);
        b
    }

    /// Inserts a row into `job_extensions`. Fails with `CantAdd`, and writes
    /// nothing, exactly when the job does not exist.
    pub fn insert_job_extension(&mut self, job_id: u128, ext: i32) -> (r: Result<(), StoreError>)
        requires
            old(self).wf(),
        ensures
            final(self).wf(),
            match r {
                Ok(()) => old(self)@.jobs.contains_key(job_id) && final(self)@ == old(
                    self,
                )@.with_extension(job_id, ext),
                Err(e) => e == StoreError::CantAdd && !old(self)@.jobs.contains_key(job_id)
                    && final(self)@ == old(self)@,
            },
    {
        let ghost before = self@;
        if !self.jobs.contains_key(job_id) {
            return Err(StoreError::CantAdd);
        }
        self.job_extensions.push(Marker { owner: job_id, tag: ext });
        proof {
            assert(self@ == before.with_extension(job_id, ext));
            before.lemma_with_extension_wf(job_id, ext);
        }
        Ok(())
    }

    /// Inserts a row into `users_jobs`. Fails with `CantAdd`, and writes
    /// nothing, exactly when the key is taken, or the job or the user does
    /// not exist.
    pub fn insert_user_job(&mut self, id: u128, job_id: u128, user_id: u128) -> (r: Result<
        (),
        StoreError,
    >)
        requires
            old(self).wf(),
        ensures
            final(self).wf(),
            match r {
                Ok(()) => old(self)@.accepts_user_job(id, job_id, user_id) && final(self)@ == old(
                    self,
                )@.with_user_job(id, job_id, user_id),
                Err(e) => e == StoreError::CantAdd && !old(self)@.accepts_user_job(
                    id,
                    job_id,
                    user_id,
                ) && final(self)@ == old(self)@,
            },
    {
        let ghost before = self@;
        if self.users_jobs.contains_key(id) || !self.jobs.contains_key(job_id)
            || !self.users.contains_key(user_id) {
            return Err(StoreError::CantAdd);
        }
        self.users_jobs.insert(id, UserJob { job_id, user_id });
        proof {
            assert(self@ == before.with_user_job(id, job_id, user_id));
            before.lemma_with_user_job_wf(id, job_id, user_id);
        }
        Ok(())
    }

    /// Whether the user owns a job of the extension type.
    pub fn linkage_exists(&self, ext: i32, user_id: u128) -> (b: bool)
        requires
            self.wf(),
        ensures
            b == self@.linked(user_id, ext),
    {
        let mut i: usize = 0;
        let n = self.users_jobs.len();
        while i < n
            invariant
                self.wf(),
                n == self.users_jobs.spec_len(),
                i <= n,
                forall|j: int| 0 <= j < i ==> !self@.links(#[trigger] self.users_jobs.spec_key(j), user_id, ext),
            decreases n - i,
        {
            let row = self.users_jobs.row_at(i);
            if row.user_id == user_id && self.job_extensions.contains(
                Marker { owner: row.job_id, tag: ext },
            ) {
                assert(self@.links(self.users_jobs.spec_key(i as int), user_id, ext));
                return true;
            }
            i += 1;
        }
        proof {
            assert forall|k: u128| !#[trigger] self@.links(k, user_id, ext) by {
                if self@.users_jobs.contains_key(k) {
                    let j = self.users_jobs.lemma_key(k);
                }
            }
        }
        false
    }

    /// The keys of the rows of `users_jobs` that give the user a job of the
    /// extension type, each once.
    pub fn linkage_ids(&self, ext: i32, user_id: u128) -> (r: Vec<u128>)
        requires
            self.wf(),
        ensures
            forall|k: u128| #[trigger] r@.contains(k) <==> self@.links(k, user_id, ext),
            r@.no_duplicates(),
    {
        let mut out: Vec<u128> = Vec::new();
        let ghost mut src: Seq<int> = Seq::empty();
        let mut i: usize = 0;
        let n = self.users_jobs.len();
        while i < n
            invariant
                self.wf(),
                n == self.users_jobs.spec_len(),
                i <= n,
                src.len() == out@.len(),
                forall|a: int|
                    0 <= a < out@.len() ==> 0 <= #[trigger] src[a] < i && out@[a]
                        == self.users_jobs.spec_key(src[a]) && self@.links(out@[a], user_id, ext),
                forall|a: int, b: int| 0 <= a < b < out@.len() ==> src[a] < src[b],
                forall|j: int|
                    0 <= j < i && self@.links(#[trigger] self.users_jobs.spec_key(j), user_id, ext)
                        ==> out@.contains(self.users_jobs.spec_key(j)),
            decreases n - i,
        {
            let row = self.users_jobs.row_at(i);
            if row.user_id == user_id && self.job_extensions.contains(
                Marker { owner: row.job_id, tag: ext },
            ) {
                let k = self.users_jobs.key_at(i);
                let ghost prev = out@;
                out.push(k);
                proof {
                    src = src.push(i as int);
                    assert(out@[prev.len() as int] == k);
                    assert forall|j: int|
                        0 <= j < i + 1 && self@.links(
                            #[trigger] self.users_jobs.spec_key(j),
                            user_id,
                            ext,
                        ) implies out@.contains(self.users_jobs.spec_key(j)) by {
                        if j < i {
                            let a = choose|a: int|
                                0 <= a < prev.len() && prev[a] == self.users_jobs.spec_key(j);
                            assert(out@[a] == prev[a]);
                        }
                    }
                }
            }
            i += 1;
        }
        proof {
            assert forall|k: u128| self@.links(k, user_id, ext) implies #[trigger] out@.contains(
                k,
            ) by {
                let j = self.users_jobs.lemma_key(k);
            }
            assert forall|k: u128| #[trigger] out@.contains(k) implies self@.links(
                k,
                user_id,
                ext,
            ) by {
                let a = choose|a: int| 0 <= a < out@.len() && out@[a] == k;
                assert(0 <= src[a] < i);
            }
            assert forall|a: int, b: int| 0 <= a < b < out@.len() implies out@[a] != out@[b] by {
                self.users_jobs.lemma_distinct(src[a], src[b]);
            }
        }
        out
    }

    /// Whether any job has the extension type.
    pub fn extension_exists(&self, ext: i32) -> (b: bool)
        requires
            self.wf(),
        ensures
            b == self@.extension_in_use(ext),
    {
        let b = self.job_extensions.has_tag(ext);
        proof {
            if b {
                let i = choose|i: int|
                    0 <= i < self.job_extensions@.len() && (#[trigger] self.job_extensions@[i]).tag
                        == ext;
                assert(self@.job_extensions[i].tag == ext);
            }
        }
        b
    }

    /// The notification row under a key, if there is one.
    pub fn select_notification(&self, id: u128) -> (r: Option<Notification>)
        requires
            self.wf(),
        ensures
            match r {
                Some(row) => self@.notifications.contains_key(id) && row@ == self@.notifications[id],
                None => !self@.notifications.contains_key(id),
            },
    {
        match self.notifications.get(id) {
            Some(row) => Some(row.clone()),
            None => None,
        }
    }

    /// The states of a notification, in the order of their rows.
    pub fn select_states(&self, id: u128) -> (r: Vec<NotificationState>)
        requires
            self.wf(),
        ensures
            r@.len() == self@.states_of(id).len(),
            forall|i: int| 0 <= i < r@.len() ==> (#[trigger] r@[i]).state == self@.states_of(id)[i],
    {
        let tags = self.notification_states.tags(id);
        let mut out: Vec<NotificationState> = Vec::new();
        let mut i: usize = 0;
        while i < tags.len()
            invariant
                i <= tags@.len(),
                out@.len() == i,
                forall|j: int| 0 <= j < i ==> (#[trigger] out@[j]).state == tags@[j],
            decreases tags@.len() - i,
        {
            out.push(NotificationState { state: tags[i] });
            i += 1;
        }
        out
    }

    /// Upserts a notification row. Fails with `CantAdd`, and writes nothing,
    /// exactly when its job does not exist.
    pub fn upsert_notification(&mut self, id: u128, row: Notification) -> (r: Result<
        (),
        StoreError,
    >)
        requires
            old(self).wf(),
        ensures
            final(self).wf(),
            match r {
                Ok(()) => old(self)@.jobs.contains_key(row.job_id) && final(self)@ == old(
                    self,
                )@.with_notification(id, row@),
                Err(e) => e == StoreError::CantAdd && !old(self)@.jobs.contains_key(row.job_id)
                    && final(self)@ == old(self)@,
            },
    {
        let ghost before = self@;
        if !self.jobs.contains_key(row.job_id) {
            return Err(StoreError::CantAdd);
        }
        self.notifications.insert(id, row);
        proof {
            assert(self@.notifications =~= before.notifications.insert(id, row@));
            assert(self@ == before.with_notification(id, row@));
            before.lemma_with_notification_wf(id, row@);
        }
        Ok(())
    }

    /// Replaces the states of a notification. Fails with `CantAdd`, and
    /// writes nothing, exactly when the notification does not exist.
    pub fn replace_states(&mut self, id: u128, states: &Vec<i32>) -> (r: Result<(), StoreError>)
        requires
            old(self).wf(),
        ensures
            final(self).wf(),
            match r {
                Ok(()) => old(self)@.notifications.contains_key(id) && final(self)@ == old(
                    self,
                )@.with_states(id, states@),
                Err(e) => e == StoreError::CantAdd && !old(self)@.notifications.contains_key(id)
                    && final(self)@ == old(self)@,
            },
    {
        let ghost before = self@;
        if !self.notifications.contains_key(id) {
            return Err(StoreError::CantAdd);
        }
        self.notification_states.remove_owner(id);
        self.notification_states.add_tags(id, states);
        proof {
            assert(self@ == before.with_states(id, states@));
            before.lemma_with_states_wf(id, states@);
        }
        Ok(())
    }

    /// Deletes a notification and its states; says whether it was there.
    pub fn delete_notification(&mut self, id: u128) -> (found: bool)
        requires
            old(self).wf(),
        ensures
            final(self).wf(),
            found == old(self)@.notifications.contains_key(id),
            final(self)@ == old(self)@.without_notification(id),
    {
        let ghost before = self@;
        let found = self.notifications.remove(id);
        self.notification_states.retain_owners(&self.notifications);
        proof {
            let after = before.without_notification(id);
            assert(self@.notifications =~= after.notifications);
            assert(self.notifications@.dom() =~= after.notifications.dom());
            assert(self@ == after);
            before.lemma_fewer_notifications_wf(after.notifications);
        }
        found
    }

    /// Deletes the notifications of a job, and their states.
    pub fn delete_notifications_of(&mut self, job_id: u128)
        requires
            old(self).wf(),
        ensures
            final(self).wf(),
            final(self)@ == old(self)@.without_notifications_of(job_id),
    {
        let ghost before = self@;
        self.notifications.remove_children_of(job_id);
        self.notification_states.retain_owners(&self.notifications);
        proof {
            let after = before.without_notifications_of(job_id);
            assert(self@.notifications =~= after.notifications);
            assert(self.notifications@.dom() =~= after.notifications.dom());
            assert(self@ == after);
            before.lemma_fewer_notifications_wf(after.notifications);
        }
    }

    /// Deletes one state of a notification; says whether it was there.
    pub fn delete_state(&mut self, id: u128, state: i32) -> (found: bool)
        requires
            old(self).wf(),
        ensures
            final(self).wf(),
            found == old(self)@.notification_states.contains(Marker { owner: id, tag: state }),
            final(self)@ == old(self)@.without_state(id, state),
    {
        let ghost before = self@;
        let found = self.notification_states.remove_row(Marker { owner: id, tag: state });
        proof {
            assert(self@ == before.without_state(id, state));
            before.lemma_without_state_wf(id, state);
        }
        found
    }

    /// The keys of the notifications of a job, each once. With a state, only
    /// those that carry it.
    pub fn notification_ids(&self, job_id: u128, state: Option<i32>) -> (r: Vec<u128>)
        requires
            self.wf(),
        ensures
            forall|k: u128| #[trigger] r@.contains(k) <==> self@.notifies(k, job_id, state),
            r@.no_duplicates(),
    {
        let mut out: Vec<u128> = Vec::new();
        let ghost mut src: Seq<int> = Seq::empty();
        let mut i: usize = 0;
        let n = self.notifications.len();
        while i < n
            invariant
                self.wf(),
                n == self.notifications.spec_len(),
                i <= n,
                src.len() == out@.len(),
                forall|a: int|
                    0 <= a < out@.len() ==> 0 <= #[trigger] src[a] < i && out@[a]
                        == self.notifications.spec_key(src[a]) && self@.notifies(
                        out@[a],
                        job_id,
                        state,
                    ),
                forall|a: int, b: int| 0 <= a < b < out@.len() ==> src[a] < src[b],
                forall|j: int|
                    0 <= j < i && self@.notifies(
                        #[trigger] self.notifications.spec_key(j),
                        job_id,
                        state,
                    ) ==> out@.contains(self.notifications.spec_key(j)),
            decreases n - i,
        {
            let row = self.notifications.row_at(i);
            let k = self.notifications.key_at(i);
            let hit = row.job_id == job_id && match state {
                Some(s) => self.notification_states.contains(Marker { owner: k, tag: s }),
                None => true,
            };
            if hit {
                let ghost prev = out@;
                out.push(k);
                proof {
                    src = src.push(i as int);
                    assert(out@[prev.len() as int] == k);
                    assert forall|j: int|
                        0 <= j < i + 1 && self@.notifies(
                            #[trigger] self.notifications.spec_key(j),
                            job_id,
                            state,
                        ) implies out@.contains(self.notifications.spec_key(j)) by {
                        if j < i {
                            let a = choose|a: int|
                                0 <= a < prev.len() && prev[a] == self.notifications.spec_key(j);
                            assert(out@[a] == prev[a]);
                        }
                    }
                }
            }
            i += 1;
        }
        proof {
            assert forall|k: u128| self@.notifies(k, job_id, state) implies #[trigger] out@.contains(
                k,
            ) by {
                let j = self.notifications.lemma_key(k);
            }
            assert forall|k: u128| #[trigger] out@.contains(k) implies self@.notifies(
                k,
                job_id,
                state,
            ) by {
                let a = choose|a: int| 0 <= a < out@.len() && out@[a] == k;
                assert(0 <= src[a] < i);
            }
            assert forall|a: int, b: int| 0 <= a < b < out@.len() implies out@[a] != out@[b] by {
                self.notifications.lemma_distinct(src[a], src[b]);
            }
        }
        out
    }

    /// A copy of the whole database: what a transaction works on until it
    /// commits.
    pub fn snapshot(&self) -> (copy: Database)
        requires
            self.wf(),
        ensures
            copy.wf(),
            copy@ == self@,
    {
        let copy = Database {
            users: self.users.duplicate(),
            jobs: self.jobs.copy_table(),
            job_extensions: self.job_extensions.duplicate(),
            users_jobs: self.users_jobs.duplicate(),
            notifications: self.notifications.copy_table(),
            notification_states: self.notification_states.duplicate(),
        };
        proof {
            assert(copy@.jobs =~= self@.jobs);
            assert(copy@.notifications =~= self@.notifications);
        }
        copy
    }
}

} // verus!
