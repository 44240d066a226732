//! What holds of the stores across calls.

use vstd::prelude::*;
use crate::db::database::{DatabaseView, is_due};
use crate::db::job::{JobCallbacks, JobExtraData, LinkageRow};
use crate::db::postgres_metadata_store::{
    add_outcome, explains_add, is_due_entry, row_outcome, stored_next_tick,
};
use crate::db::postgres_notification_store::stored_notification;
use crate::db::table::Marker;
use crate::db::tables::{
    JobAndNextTick, JobStoredDataView, JobView, lemma_id_roundtrip, lemma_round_trip, spec_to_row,
    split_id, tick_entry,
};
use crate::error::StoreError;

verus! {

impl DatabaseView {
    /// Whether a row of `users_jobs` says that `user` owns the job.
    pub open spec fn owns(self, user: u128, job_id: u128) -> bool {
        exists|k: u128|
            #![trigger self.users_jobs[k]]
            self.users_jobs.contains_key(k) && self.users_jobs[k].user_id == user
                && self.users_jobs[k].job_id == job_id
    }

    /// At most one row of `users_jobs` gives `user` a job of type `ext`.
    pub open spec fn at_most_one_linkage(self, user: u128, ext: i32) -> bool {
        forall|a: u128, b: u128|
            #![trigger self.links(a, user, ext), self.links(b, user, ext)]
            self.links(a, user, ext) && self.links(b, user, ext) ==> a == b
    }

    /// Exactly one row of `users_jobs` gives `user` a job of type `ext`.
    pub open spec fn one_linkage(self, user: u128, ext: i32) -> bool {
        self.linked(user, ext) && self.at_most_one_linkage(user, ext)
    }

    /// The dedup invariant: every owner has at most one job of each
    /// extension type.
    pub open spec fn one_owner_each(self) -> bool {
        forall|user: u128, ext: i32| #[trigger] self.at_most_one_linkage(user, ext)
    }
}

/// Atomicity: a registration that fails leaves the database as it was. In
/// particular, where the post-insert callback fails, neither the job row
/// nor any linkage row is written.
pub proof fn lemma_failed_add_writes_nothing(
    db: DatabaseView,
    row: JobView,
    veto: Result<bool, StoreError>,
    links: Result<Seq<LinkageRow>, StoreError>,
)
    ensures
        add_outcome(db, row, veto, links).1 is Err ==> add_outcome(db, row, veto, links).0 == db,
        veto == Ok::<bool, StoreError>(false) && links is Err ==> add_outcome(db, row, veto, links)
            == (db, Err::<(), StoreError>(StoreError::CantAdd)),
{
}

/// What a registration through the owner hooks writes where it is not
/// vetoed and succeeds: the job row, its extension marker, and the owner's
/// row under a new key.
pub proof fn lemma_owned_add(
    before: DatabaseView,
    row: JobView,
    extra: JobExtraData,
    veto: Result<bool, StoreError>,
    links: Result<Seq<LinkageRow>, StoreError>,
    after: DatabaseView,
) -> (key: u128)
    requires
        explains_add(JobCallbacks, before, row, extra, veto, links, after, Ok(())),
        !before.linked(extra.user_id, extra.extension_type.spec_code()),
    ensures
        before.with_job(row).accepts_user_job(key, row.id, extra.user_id),
        after == before.with_job(row).with_extension(
            row.id,
            extra.extension_type.spec_code(),
        ).with_user_job(key, row.id, extra.user_id),
        after.links(key, extra.user_id, extra.extension_type.spec_code()),
{
    let staged = before.with_job(row);
    let rows = links->Ok_0;
    let key = rows[1]->UserJob_id;
    assert(rows.drop_last().drop_last() =~= Seq::<LinkageRow>::empty());
    assert(rows.drop_last().last() == rows[0]);
    assert(rows.last() == rows[1]);
    assert(staged.with_links(row.id, rows.drop_last().drop_last()) == Some(staged));
    assert(staged.with_links(row.id, rows.drop_last()) == staged.with_link(row.id, rows[0]));
    let tag = Marker { owner: row.id, tag: extra.extension_type.spec_code() };
    assert(after.job_extensions[before.job_extensions.len() as int] == tag);
    key
}

/// A link that a registration did not make was there before, unless the
/// job that was registered had an owner already.
proof fn lemma_other_links_are_old(
    before: DatabaseView,
    row: JobView,
    tag: i32,
    key: u128,
    owner: u128,
    k: u128,
    user: u128,
    ext: i32,
)
    requires
        before.with_job(row).with_extension(row.id, tag).with_user_job(key, row.id, owner).links(
            k,
            user,
            ext,
        ),
        k != key,
        !(before.owns(user, row.id) && ext == tag),
    ensures
        before.links(k, user, ext),
{
    let after = before.with_job(row).with_extension(row.id, tag).with_user_job(key, row.id, owner);
    assert(before.users_jobs.contains_key(k));
    assert(before.users_jobs[k] == after.users_jobs[k]);
    let m = Marker { owner: before.users_jobs[k].job_id, tag: ext };
    let i = choose|i: int| 0 <= i < after.job_extensions.len() && after.job_extensions[i] == m;
    if i == before.job_extensions.len() {
        assert(m == Marker { owner: row.id, tag });
        assert(before.users_jobs[k].job_id == row.id);
    } else {
        assert(before.job_extensions[i] == m);
    }
}

/// A successful registration through the owner hooks leaves the owner with
/// exactly one job of the type, provided that the owner had at most one
/// before and does not already own the registered job otherwise.
pub proof fn lemma_add_links_once(
    before: DatabaseView,
    row: JobView,
    extra: JobExtraData,
    veto: Result<bool, StoreError>,
    links: Result<Seq<LinkageRow>, StoreError>,
    after: DatabaseView,
)
    requires
        before.at_most_one_linkage(extra.user_id, extra.extension_type.spec_code()),
        before.linked(extra.user_id, extra.extension_type.spec_code()) || !before.owns(
            extra.user_id,
            row.id,
        ),
        explains_add(JobCallbacks, before, row, extra, veto, links, after, Ok(())),
    ensures
        after.one_linkage(extra.user_id, extra.extension_type.spec_code()),
{
    let user = extra.user_id;
    let ext = extra.extension_type.spec_code();
    if !before.linked(user, ext) {
        let key = lemma_owned_add(before, row, extra, veto, links, after);
        assert forall|a: u128, b: u128|
            #![trigger after.links(a, user, ext), after.links(b, user, ext)]
            after.links(a, user, ext) && after.links(b, user, ext) implies a == b by {
            if a != key {
                lemma_other_links_are_old(before, row, ext, key, user, a, user, ext);
            }
            if b != key {
                lemma_other_links_are_old(before, row, ext, key, user, b, user, ext);
            }
        }
    }
}

/// The dedup invariant survives registration: where every owner has at
/// most one job of each type, and a new job is registered through the
/// owner hooks, every owner still has at most one job of each type.
pub proof fn lemma_add_keeps_one_owner_each(
    before: DatabaseView,
    row: JobView,
    extra: JobExtraData,
    veto: Result<bool, StoreError>,
    links: Result<Seq<LinkageRow>, StoreError>,
    after: DatabaseView,
    result: Result<(), StoreError>,
)
    requires
        before.wf(),
        before.one_owner_each(),
        !before.jobs.contains_key(row.id),
        explains_add(JobCallbacks, before, row, extra, veto, links, after, result),
    ensures
        after.one_owner_each(),
{
    let owner = extra.user_id;
    let tag = extra.extension_type.spec_code();
    if after != before {
        let key = lemma_owned_add(before, row, extra, veto, links, after);
        assert forall|k: u128| #[trigger] before.users_jobs.contains_key(k) implies before.users_jobs[k].job_id
            != row.id by {
            assert(before.jobs.contains_key(before.users_jobs[k].job_id));
        }
        assert forall|user: u128, ext: i32| #[trigger] after.at_most_one_linkage(user, ext) by {
            assert(before.at_most_one_linkage(user, ext));
            assert forall|a: u128, b: u128|
                #![trigger after.links(a, user, ext), after.links(b, user, ext)]
                after.links(a, user, ext) && after.links(b, user, ext) implies a == b by {
                if a != key {
                    lemma_other_links_are_old(before, row, tag, key, owner, a, user, ext);
                }
                if b != key {
                    lemma_other_links_are_old(before, row, tag, key, owner, b, user, ext);
                }
                if a != b && (a == key || b == key) {
                    let m = Marker { owner: row.id, tag: ext };
                    let i = choose|i: int|
                        0 <= i < after.job_extensions.len() && after.job_extensions[i] == m;
                    if i < before.job_extensions.len() {
                        assert(before.jobs.contains_key(before.job_extensions[i].owner));
                    }
                    assert(user == owner && ext == tag);
                    let other = if a == key {
                        b
                    } else {
                        a
                    };
                    assert(before.links(other, owner, tag));
                }
            }
        }
    }
}

/// Idempotent registration: once an owner has registered a job of some
/// type, a second registration for the same owner and type, of whatever
/// job, returns success and writes nothing; the owner has exactly one
/// linkage row of that type after the first call and after the second.
///
/// The owner is to have at most one such row at the start, and is not to
/// own the first job already under another type.
pub proof fn lemma_registration_is_idempotent(
    start: DatabaseView,
    first: JobView,
    second: JobView,
    extra: JobExtraData,
    veto1: Result<bool, StoreError>,
    links1: Result<Seq<LinkageRow>, StoreError>,
    middle: DatabaseView,
    veto2: Result<bool, StoreError>,
    links2: Result<Seq<LinkageRow>, StoreError>,
    end: DatabaseView,
    result2: Result<(), StoreError>,
)
    requires
        start.at_most_one_linkage(extra.user_id, extra.extension_type.spec_code()),
        start.linked(extra.user_id, extra.extension_type.spec_code()) || !start.owns(
            extra.user_id,
            first.id,
        ),
        explains_add(JobCallbacks, start, first, extra, veto1, links1, middle, Ok(())),
        explains_add(JobCallbacks, middle, second, extra, veto2, links2, end, result2),
    ensures
        result2 == Ok::<(), StoreError>(()),
        end == middle,
        middle.one_linkage(extra.user_id, extra.extension_type.spec_code()),
        end.one_linkage(extra.user_id, extra.extension_type.spec_code()),
{
    lemma_add_links_once(start, first, extra, veto1, links1, middle);
}

/// A valid descriptor that was stored is read back as it was.
pub proof fn lemma_stored_job_reads_back(db: DatabaseView, data: JobStoredDataView)
    requires
        data.valid(),
    ensures
        db.with_job(spec_to_row(data)).jobs.contains_key(spec_to_row(data).id),
        row_outcome(Some(db.with_job(spec_to_row(data)).jobs[spec_to_row(data).id])) == Ok::<
            JobStoredDataView,
            StoreError,
        >(data),
{
    lemma_round_trip(data);
}

/// Tick filtering: of jobs that are unscheduled, scheduled ten seconds
/// before `now` and scheduled ten seconds after it, a listing at `now`
/// holds the second kind only, as long as ten seconds before `now` is a
/// tick at all, that is, positive.
pub proof fn lemma_tick_filtering(job: JobView, now: i64)
    requires
        i64::MIN + 10 <= now <= i64::MAX - 10,
        job.next_tick == Some(0i64) || job.next_tick == Some((now - 10) as i64) || job.next_tick
            == Some((now + 10) as i64),
    ensures
        is_due(job, now) <==> job.next_tick == Some((now - 10) as i64) && now > 10,
{
}

/// Tick monotonicity: once a job's ticks are recorded with no next tick,
/// no listing of due jobs, whatever the moment, lists the job.
pub proof fn lemma_unscheduled_is_never_due(
    db: DatabaseView,
    id: u128,
    last_tick: Option<i64>,
    now: i64,
    entry: JobAndNextTick,
)
    requires
        db.wf(),
        is_due_entry(db.with_ticks(id, stored_next_tick(None), last_tick), now, entry),
    ensures
        entry.id != Some(split_id(id)),
{
    let after = db.with_ticks(id, 0, last_tick);
    let k = choose|k: u128|
        #![trigger after.jobs[k]]
        after.jobs.contains_key(k) && is_due(after.jobs[k], now) && entry == tick_entry(
            after.jobs[k],
        );
    assert(db.jobs.contains_key(k));
    assert(db.jobs[k].id == k);
    if db.jobs.contains_key(id) {
        assert(db.jobs[id].id == id);
    }
    assert(k != id);
    assert(after.jobs[k].id == k);
    lemma_id_roundtrip(k, 0, 0);
    lemma_id_roundtrip(id, 0, 0);
}

/// Cascade delete: after a job is deleted, none of its notifications is
/// there, so that a `get` of it finds nothing, and no state is left of it.
pub proof fn lemma_delete_job_deletes_notifications(
    db: DatabaseView,
    job_id: u128,
    notification_id: u128,
)
    requires
        db.wf(),
        db.notifications.contains_key(notification_id),
        db.notifications[notification_id].job_id == job_id,
    ensures
        !db.without_job(job_id).notifications.contains_key(notification_id),
        db.without_job(job_id).states_of(notification_id) == Seq::<i32>::empty(),
        forall|k: u128| !#[trigger] db.without_job(job_id).notifies(k, job_id, None),
{
    let after = db.without_job(job_id);
    db.lemma_without_job_wf(job_id);
    let mine = after.notification_states.filter(crate::db::table::owned_by(notification_id));
    if mine.len() > 0 {
        after.notification_states.lemma_filter_pred(crate::db::table::owned_by(notification_id), 0);
        assert(after.notification_states.contains(mine[0])) by {
            after.notification_states.lemma_filter_contains_rev(
                crate::db::table::owned_by(notification_id),
                mine[0],
            );
            assert(mine.contains(mine[0]));
        }
        let i = choose|i: int|
            0 <= i < after.notification_states.len() && after.notification_states[i] == mine[0];
        assert(after.notifications.contains_key(after.notification_states[i].owner));
    }
    assert(after.states_of(notification_id) =~= Seq::<i32>::empty());
}

/// A stored notification is read back as it was stored, with each of its
/// states once.
pub proof fn lemma_notification_read_back(
    db: DatabaseView,
    id: u128,
    job_id: u128,
    extra: Seq<u8>,
    states: Seq<i32>,
)
    requires
        db.wf(),
        db.jobs.contains_key(job_id),
    ensures
        ({
            let after = db.with_notification(
                id,
                crate::db::database::NotificationView { job_id, extra },
            ).with_states(id, states);
            &&& stored_notification(after, id).extra == extra
            &&& stored_notification(after, id).job_states.no_duplicates()
            &&& forall|s: i32|
                stored_notification(after, id).job_states.contains(s) <==> states.contains(s)
        }),
{
    let row = crate::db::database::NotificationView { job_id, extra };
    let mid = db.with_notification(id, row);
    let after = mid.with_states(id, states);
    db.lemma_with_notification_wf(id, row);
    mid.lemma_with_states_wf(id, states);
    let base = mid.notification_states.filter(crate::db::table::not_owned_by(id));
    crate::db::table::lemma_with_markers(base, id, states);
    crate::db::table::lemma_filter_keeps_distinct(
        after.notification_states,
        crate::db::table::owned_by(id),
    );
    let kept = after.notification_states.filter(crate::db::table::owned_by(id));
    let tags = after.states_of(id);
    assert forall|a: int, b: int| 0 <= a < b < tags.len() implies tags[a] != tags[b] by {
        assert(kept[a] != kept[b]);
        assert(kept[a].owner == id && kept[b].owner == id);
    }
    assert forall|s: i32| tags.contains(s) <==> states.contains(s) by {
        crate::db::table::lemma_tags_of_contains(after.notification_states, id, s);
        let m = Marker { owner: id, tag: s };
        if after.notification_states.contains(m) && !states.contains(s) {
            assert(base.contains(m));
            let i = choose|i: int| 0 <= i < base.len() && base[i] == m;
            mid.notification_states.lemma_filter_pred(crate::db::table::not_owned_by(id), i);
        }
        if states.contains(s) {
            let i = choose|i: int| 0 <= i < states.len() && states[i] == s;
            assert(after.notification_states.contains(Marker { owner: id, tag: states[i] }));
        }
    }
}

} // verus!
