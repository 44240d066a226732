//! The metadata store: jobs, their ticks, and registration through hooks.

use vstd::prelude::*;
use crate::db::database::{Database, DatabaseView, TickRow, is_due};
use crate::db::job::{
    JobCallbacksExtension, JobExtraData, LinkageRow, NoCallbacks, linkage_answer,
};
use crate::db::registration::{AddAction, AddEvent, start, step};
use crate::db::tables::{
    Job, JobAndNextTick, JobStoredData, JobStoredDataView, JobView, lemma_id_roundtrip,
    spec_to_descriptor, spec_to_row, tick_entry,
};
use crate::error::StoreError;

verus! {

/// What a registration leaves behind, and what it returns, once the hooks
/// have answered.
///
/// A failed pre-insert check fails the registration; a veto ends it in
/// success with nothing written. Otherwise the job row is upserted and the
/// linkage rows are inserted in one transaction: where the post-insert
/// callback fails, or a constraint refuses a linkage row, nothing is written
/// and the registration fails.
pub open spec fn add_outcome(
    db: DatabaseView,
    row: JobView,
    veto: Result<bool, StoreError>,
    links: Result<Seq<LinkageRow>, StoreError>,
) -> (DatabaseView, Result<(), StoreError>) {
    match veto {
        Err(_) => (db, Err(StoreError::CantAdd)),
        Ok(true) => (db, Ok(())),
        Ok(false) => match links {
            Err(_) => (db, Err(StoreError::CantAdd)),
            Ok(rows) => match db.with_job(row).with_links(row.id, rows) {
                Some(after) => (after, Ok(())),
                None => (db, Err(StoreError::CantAdd)),
            },
        },
    }
}

/// Whether the hooks `hooks`, answering `veto` and `links`, explain how a
/// registration of `row` with metadata `extra` went from `before` to `after`
/// and returned `result`.
pub open spec fn explains_add<C: JobCallbacksExtension>(
    hooks: C,
    before: DatabaseView,
    row: JobView,
    extra: JobExtraData,
    veto: Result<bool, StoreError>,
    links: Result<Seq<LinkageRow>, StoreError>,
    after: DatabaseView,
    result: Result<(), StoreError>,
) -> bool {
    &&& hooks.may_veto(row, extra, before, veto)
    &&& veto == Ok::<bool, StoreError>(false) ==> hooks.may_link(
        row,
        extra,
        before.with_job(row),
        links,
    )
    &&& (after, result) == add_outcome(before, row, veto, links)
}

/// The seconds from `now` to the earliest tick after it; `None` where no
/// job is scheduled after `now`.
pub open spec fn is_time_till_next(db: DatabaseView, now: i64, r: Option<u64>) -> bool {
    match r {
        Some(secs) => exists|tick: i64|
            #![trigger db.scheduled_at(now, tick)]
            db.scheduled_at(now, tick) && db.none_before(now, tick) && secs == tick - now,
        None => db.none_pending(now),
    }
}

/// Whether `entry` lists a job that is due at `now`.
pub open spec fn is_due_entry(db: DatabaseView, now: i64, entry: JobAndNextTick) -> bool {
    exists|id: u128|
        #![trigger db.jobs[id]]
        db.jobs.contains_key(id) && is_due(db.jobs[id], now) && entry == tick_entry(db.jobs[id])
}

/// The metadata store of the scheduler engine, over a database that the
/// caller holds.
pub struct PostgresMetadataStore<C: JobCallbacksExtension> {
    callbacks: C,
}

impl PostgresMetadataStore<NoCallbacks> {
    /// A store without hooks.
    pub fn new() -> (store: Self)
        ensures
            store.hooks() == NoCallbacks,
    {
        PostgresMetadataStore { callbacks: NoCallbacks }
    }
}

impl<C: JobCallbacksExtension> PostgresMetadataStore<C> {
    /// The hooks that the store calls.
    pub closed spec fn hooks(&self) -> C {
        self.callbacks
    }

    /// The store with other hooks.
    pub fn with_callbacks<D: JobCallbacksExtension>(self, callbacks: D) -> (store:
        PostgresMetadataStore<D>)
        ensures
            store.hooks() == callbacks,
    {
        PostgresMetadataStore { callbacks }
    }

    /// Nothing to prepare: always `Ok`.
    pub fn init(&mut self) -> (r: Result<(), StoreError>)
        ensures
            r == Ok::<(), StoreError>(()),
            final(self).hooks() == old(self).hooks(),
    {
        Ok(())
    }

    /// The store is ready from the start: always `Ok(true)`.
    pub fn inited(&self) -> (r: Result<bool, StoreError>)
        ensures
            r == Ok::<bool, StoreError>(true),
    {
        Ok(true)
    }

    /// The job under an identifier.
    ///
    /// `NotFound` where there is no such row; `FetchFailure` where there is
    /// one that cannot be mapped to a descriptor.
    pub fn get(&self, db: &Database, id: u128) -> (r: Result<JobStoredData, StoreError>)
        requires
            db.wf(),
        ensures
            match r {
                Ok(data) => db@.jobs.contains_key(id) && spec_to_descriptor(db@.jobs[id]) == Ok::<
                    JobStoredDataView,
                    StoreError,
                >(data@),
                Err(e) => if db@.jobs.contains_key(id) {
                    e == StoreError::FetchFailure && spec_to_descriptor(db@.jobs[id]) is Err
                } else {
                    e == StoreError::NotFound
                },
            },
    {
        descriptor_of_row(db.select_job(id))
    }

    /// Registers a job: stores its row, and the linkage rows that the hooks
    /// ask for, in one transaction.
    ///
    /// `extra` is the decoded extra payload of `data`, `None` where the
    /// payload is missing or cannot be decoded: such a job is refused with
    /// `CantAdd`. Otherwise the outcome is the one that `add_outcome` gives
    /// for what the hooks answered. Whenever the call fails, the error is
    /// `CantAdd` and the database is as it was.
    pub fn add_or_update(&self, db: &mut Database, data: JobStoredData, extra: Option<JobExtraData>)
        -> (r: Result<(), StoreError>)
        requires
            old(db).wf(),
            data.id is Some,
        ensures
            final(db).wf(),
            r is Err ==> r == Err::<(), StoreError>(StoreError::CantAdd) && final(db)@ == old(db)@,
            match extra {
                None => r is Err,
                Some(x) => exists|
                    veto: Result<bool, StoreError>,
                    links: Result<Seq<LinkageRow>, StoreError>,
                | #[trigger]
                    explains_add(
                        self.hooks(),
                        old(db)@,
                        spec_to_row(data@),
                        x,
                        veto,
                        links,
                        final(db)@,
                        r,
                    ),
            },
    {
        let ghost before = db@;
        let ghost row = spec_to_row(data@);
        let job = Job::from_descriptor(data);
        let (state, action) = start(extra.is_some());
        let extra = match extra {
            Some(x) => x,
            None => {
                return action.result();
            },
        };
        let veto = self.callbacks.before_job_add(&job, &extra, db);
        let event = match veto {
            Ok(vetoed) => AddEvent::Vetoed(vetoed),
            Err(_) => AddEvent::Failed,
        };
        let (state, action) = step(state, event);
        match action {
            AddAction::Begin => {},
            _ => {
                assert(explains_add(
                    self.hooks(),
                    before,
                    row,
                    extra,
                    veto,
                    Err(StoreError::CantAdd),
                    before,
                    action.spec_result(),
                ));
                return action.result();
            },
        }
        let mut tx = db.snapshot();
        let (state, _) = step(state, AddEvent::Succeeded);
        tx.upsert_job(job.clone());
        let (state, _) = step(state, AddEvent::Succeeded);
        let answer = self.callbacks.after_job_add(&job, &extra, &tx);
        let ghost links = linkage_answer(answer);
        let linked = match answer {
            Ok(rows) => tx.insert_links(job.id, &rows).is_ok(),
            Err(_) => false,
        };
        let (state, action) = step(
            state,
            if linked {
                AddEvent::Succeeded
            } else {
                AddEvent::Failed
            },
        );
        match action {
            AddAction::Commit => {
                *db = tx;
            },
            _ => {},
        }
        let (_, last) = step(state, AddEvent::Succeeded);
        assert(explains_add(self.hooks(), before, row, extra, veto, links, db@, last.spec_result()));
        last.result()
    }

    /// Deletes a job and, by cascade, its linkage rows and notifications.
    /// Deleting a job that is not there is no error.
    pub fn delete(&self, db: &mut Database, id: u128) -> (r: Result<(), StoreError>)
        requires
            old(db).wf(),
        ensures
            final(db).wf(),
            r == Ok::<(), StoreError>(()),
            final(db)@ == old(db)@.without_job(id),
    {
        db.delete_job(id);
        Ok(())
    }

    /// The jobs whose next tick is in `(0, now]`, each once, in no
    /// particular order.
    pub fn list_next_ticks(&self, db: &Database, now: i64) -> (r: Result<
        Vec<JobAndNextTick>,
        StoreError,
    >)
        requires
            db.wf(),
        ensures
            r matches Ok(list) && list@.no_duplicates() && forall|entry: JobAndNextTick| #[trigger]
                list@.contains(entry) <==> is_due_entry(db@, now, entry),
    {
        let rows = db.select_due(now);
        let mut out: Vec<JobAndNextTick> = Vec::new();
        let mut i: usize = 0;
        while i < rows.len()
            invariant
                i <= rows@.len(),
                out@.len() == i,
                forall|a: int| 0 <= a < i ==> #[trigger] out@[a] == entry_of_row(rows@[a]),
            decreases rows@.len() - i,
        {
            let row = rows[i];
            out.push(JobAndNextTick::from_columns(row.id, row.next_tick, row.job_type, row.last_tick));
            i += 1;
        }
        proof {
            db.lemma_wf();
            assert forall|entry: JobAndNextTick| #[trigger] out@.contains(entry) implies is_due_entry(
                db@,
                now,
                entry,
            ) by {
                let a = choose|a: int| 0 <= a < out@.len() && out@[a] == entry;
                assert(out@[a] == entry_of_row(rows@[a]));
                assert(rows@.contains(rows@[a]));
                assert(db@.due_row(now, rows@[a]));
                assert(entry == tick_entry(db@.jobs[rows@[a].id]));
            }
            assert forall|entry: JobAndNextTick| is_due_entry(db@, now, entry) implies #[trigger]
                out@.contains(entry) by {
                let id = choose|id: u128|
                    #![trigger db@.jobs[id]]
                    db@.jobs.contains_key(id) && is_due(db@.jobs[id], now) && entry == tick_entry(
                        db@.jobs[id],
                    );
                let row = crate::db::database::tick_row(db@.jobs[id]);
                assert(db@.due_row(now, row));
                assert(rows@.contains(row));
                let a = choose|a: int| 0 <= a < rows@.len() && rows@[a] == row;
                assert(out@[a] == entry);
            }
            assert forall|a: int, b: int| 0 <= a < b < out@.len() implies out@[a] != out@[b] by {
                assert(out@[a] == entry_of_row(rows@[a]));
                assert(out@[b] == entry_of_row(rows@[b]));
                lemma_id_roundtrip(rows@[a].id, 0, 0);
                lemma_id_roundtrip(rows@[b].id, 0, 0);
            }
        }
        Ok(out)
    }

    /// Records the ticks of a job. An absent next tick is stored as 0, the
    /// mark of an unscheduled job. A job that is not there is no error.
    pub fn set_next_and_last_tick(
        &self,
        db: &mut Database,
        id: u128,
        next_tick: Option<i64>,
        last_tick: Option<i64>,
    ) -> (r: Result<(), StoreError>)
        requires
            old(db).wf(),
        ensures
            final(db).wf(),
            r == Ok::<(), StoreError>(()),
            final(db)@ == old(db)@.with_ticks(id, stored_next_tick(next_tick), last_tick),
    {
        db.update_ticks(id, next_tick_column(next_tick), last_tick);
        Ok(())
    }

    /// The seconds from `now` until the next job is to run.
    pub fn time_till_next_job_at(&self, db: &Database, now: i64) -> (r: Result<
        Option<u64>,
        StoreError,
    >)
        requires
            db.wf(),
        ensures
            r matches Ok(wait) && is_time_till_next(db@, now, wait),
    {
        let earliest = db.next_tick_after(now);
        proof {
            if let Some(tick) = earliest {
                assert(db@.scheduled_at(now, tick));
                let id = choose|id: u128| #[trigger]
                    db@.jobs.contains_key(id) && crate::db::database::is_pending(db@.jobs[id], now)
                        && db@.jobs[id].next_tick == Some(tick);
                assert(now < tick);
            }
        }
        Ok(wait_for(now, earliest))
    }

    /// The seconds from the present moment until the next job is to run.
    ///
    /// The moment is read from the clock, so all that is known of the
    /// result is that it is right for some moment not before 1970.
    pub fn time_till_next_job(&self, db: &Database) -> (r: Result<Option<u64>, StoreError>)
        requires
            db.wf(),
        ensures
            r matches Ok(wait) && exists|now: i64|
                0 <= now && #[trigger] is_time_till_next(db@, now, wait),
    {
        let now = unix_now();
        self.time_till_next_job_at(db, now)
    }
}

/// What the selected row of a job gives: the descriptor, `NotFound` for no
/// row, `FetchFailure` for a row that cannot be mapped.
pub open spec fn row_outcome(row: Option<JobView>) -> Result<JobStoredDataView, StoreError> {
    match row {
        None => Err(StoreError::NotFound),
        Some(job) => match spec_to_descriptor(job) {
            Ok(data) => Ok(data),
            Err(_) => Err(StoreError::FetchFailure),
        },
    }
}

/// Turns the row that a select of one job found, if any, into the answer of `get`.
pub fn descriptor_of_row(row: Option<Job>) -> (r: Result<JobStoredData, StoreError>)
    ensures
        match r {
            Ok(data) => row matches Some(job) && row_outcome(Some(job@)) == Ok::<
                JobStoredDataView,
                StoreError,
            >(data@),
            Err(e) => match row {
                Some(job) => row_outcome(Some(job@)) == Err::<JobStoredDataView, StoreError>(e),
                None => e == StoreError::NotFound,
            },
        },
{
    match row {
        None => Err(StoreError::NotFound),
        Some(job) => match job.to_descriptor() {
            Ok(data) => Ok(data),
            Err(_) => Err(StoreError::FetchFailure),
        },
    }
}

/// The value for the `next_tick` column: the tick, or 0 for none.
pub fn next_tick_column(next_tick: Option<i64>) -> (r: i64)
    ensures
        r == stored_next_tick(next_tick),
{
    match next_tick {
        Some(t) => t,
        None => 0,
    }
}

/// The seconds from a moment to a later tick.
pub fn wait_until(now: i64, tick: i64) -> (secs: u64)
    requires
        now < tick,
    ensures
        secs == tick - now,
{
    let secs: i128 = tick as i128 - now as i128;
    secs as u64
}

/// The seconds from a moment to the tick that a query for the earliest
/// later tick found; `None` where it found none, or one that is not later.
pub fn wait_for(now: i64, earliest: Option<i64>) -> (r: Option<u64>)
    ensures
        r == match earliest {
            Some(tick) => if now < tick {
                Some((tick - now) as u64)
            } else {
                None
            },
            None => None,
        },
{
    match earliest {
        Some(tick) => if now < tick {
            Some(wait_until(now, tick))
        } else {
            None
        },
        None => None,
    }
}

/// The value that the `next_tick` column gets: the tick, or 0 for none.
pub open spec fn stored_next_tick(next_tick: Option<i64>) -> i64 {
    match next_tick {
        Some(t) => t,
        None => 0,
    }
}

/// The listing made of the selected columns of a row.
pub open spec fn entry_of_row(row: TickRow) -> JobAndNextTick {
    JobAndNextTick {
        id: Some(crate::db::tables::split_id(row.id)),
        job_type: row.job_type,
        next_tick: match row.next_tick {
            Some(t) => crate::db::tables::unsigned64(t),
            None => 0,
        },
        last_tick: crate::db::tables::column_to_tick(row.last_tick),
    }
}

/// The present moment in whole seconds since 1970, from
/// `chrono::Utc::now().timestamp()`.
///
/// Which second it is nobody can say beforehand; the clock's reading is
/// taken as a duration since 1970, so it is not negative. Where the
/// system's clock stands before 1970 the call panics and does not return.
#[verifier::external_body]
fn unix_now() -> (now: i64)
    ensures
        0 <= now,
{
    chrono::Utc::now().timestamp()
}

} // verus!
