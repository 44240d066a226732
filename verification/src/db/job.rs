//! Domain metadata of a job, and the hooks through which the domain decides
//! who may own what.

use vstd::prelude::*;
use crate::db::database::{Database, DatabaseView};
use crate::db::tables::{Job, JobView};
use crate::error::StoreError;

verus! {

/// Why a job exists.
#[derive(Clone, Copy, Debug, PartialEq, Eq, Structural)]
pub enum JobExtensionType {
    WhiteDaysMessage,
    DailyHadithMessage,
}

impl JobExtensionType {
    /// The integer tag of each extension type in `job_extensions`.
    pub open spec fn spec_code(self) -> i32 {
        match self {
            JobExtensionType::WhiteDaysMessage => 1,
            JobExtensionType::DailyHadithMessage => 2,
        }
    }

    pub fn code(self) -> (r: i32)
        ensures
            r == self.spec_code(),
    {
        match self {
            JobExtensionType::WhiteDaysMessage => 1,
            JobExtensionType::DailyHadithMessage => 2,
        }
    }

    /// The extension type of tag 1, the only tag that is read back.
    pub fn from(value: i32) -> (r: JobExtensionType)
        requires
            value == 1,
        ensures
            r == JobExtensionType::WhiteDaysMessage,
            r.spec_code() == value,
    {
        JobExtensionType::WhiteDaysMessage
    }
}

/// What the extra payload of a job says: who owns the job, and why it exists.
#[derive(Clone, Copy, Debug, PartialEq, Eq, Structural)]
pub struct JobExtraData {
    pub user_id: u128,
    pub extension_type: JobExtensionType,
}

/// A linkage row that a hook wants stored with the job being added.
#[derive(Clone, Copy, Debug, PartialEq, Eq, Structural)]
pub enum LinkageRow {
    /// A row of `job_extensions`: the job has this extension type.
    JobExtension { extension_type: JobExtensionType },
    /// A row of `users_jobs` under the key `id`: the user owns the job.
    UserJob { id: u128, user_id: u128 },
}

impl DatabaseView {
    /// The content after one linkage row of a job was inserted, or `None`
    /// where a constraint refuses the row.
    pub open spec fn with_link(self, job_id: u128, row: LinkageRow) -> Option<DatabaseView> {
        match row {
            LinkageRow::JobExtension { extension_type } => if self.jobs.contains_key(job_id) {
                Some(self.with_extension(job_id, extension_type.spec_code()))
            } else {
                None
            },
            LinkageRow::UserJob { id, user_id } => if self.accepts_user_job(id, job_id, user_id) {
                Some(self.with_user_job(id, job_id, user_id))
            } else {
                None
            },
        }
    }

    /// The content after the linkage rows of a job were inserted one after
    /// the other, or `None` where a constraint refuses one of them.
    pub open spec fn with_links(self, job_id: u128, rows: Seq<LinkageRow>) -> Option<DatabaseView>
        decreases rows.len(),
    {
        if rows.len() == 0 {
            Some(self)
        } else {
            match self.with_links(job_id, rows.drop_last()) {
                Some(front) => front.with_link(job_id, rows.last()),
                None => None,
            }
        }
    }

    /// Linkage rows touch the two linkage tables only, and keep the constraints.
    pub proof fn lemma_with_links(self, job_id: u128, rows: Seq<LinkageRow>)
        requires
            self.wf(),
        ensures
            self.with_links(job_id, rows) matches Some(after) ==> {
                &&& after.wf()
                &&& after.users == self.users
                &&& after.jobs == self.jobs
                &&& after.notifications == self.notifications
                &&& after.notification_states == self.notification_states
            },
        decreases rows.len(),
    {
        if rows.len() > 0 {
            self.lemma_with_links(job_id, rows.drop_last());
            if let Some(front) = self.with_links(job_id, rows.drop_last()) {
                match rows.last() {
                    LinkageRow::JobExtension { extension_type } => {
                        if front.jobs.contains_key(job_id) {
                            front.lemma_with_extension_wf(job_id, extension_type.spec_code());
                        }
                    },
                    LinkageRow::UserJob { id, user_id } => {
                        if front.accepts_user_job(id, job_id, user_id) {
                            front.lemma_with_user_job_wf(id, job_id, user_id);
                        }
                    },
                }
            }
        }
    }
}

impl Database {
    /// Inserts the linkage rows of a job one after the other, and stops at
    /// the first that a constraint refuses.
    ///
    /// Succeeds exactly when every row is taken; the content is then the one
    /// that `with_links` gives. After a failure the rows before the refused
    /// one are in: the caller rolls back.
    pub fn insert_links(&mut self, job_id: u128, rows: &Vec<LinkageRow>) -> (r: Result<
        (),
        StoreError,
    >)
        requires
            old(self).wf(),
        ensures
            final(self).wf(),
            match r {
                Ok(()) => old(self)@.with_links(job_id, rows@) == Some(final(self)@),
                Err(e) => e == StoreError::CantAdd && old(self)@.with_links(job_id, rows@) is None,
            },
    {
        let ghost base = self@;
        let mut i: usize = 0;
        proof {
            assert(rows@.take(0) =~= Seq::<LinkageRow>::empty());
        }
        while i < rows.len()
            invariant
                self.wf(),
                i <= rows@.len(),
                base == old(self)@,
                base.with_links(job_id, rows@.take(i as int)) == Some(self@),
            decreases rows@.len() - i,
        {
            proof {
                rows@.lemma_take_succ_push(i as int);
                assert(rows@.take(i + 1).drop_last() =~= rows@.take(i as int));
                assert(rows@.take(i + 1).last() == rows@[i as int]);
            }
            let ghost front = self@;
            let done = match rows[i] {
                LinkageRow::JobExtension { extension_type } => self.insert_job_extension(
                    job_id,
                    extension_type.code(),
                ),
                LinkageRow::UserJob { id, user_id } => self.insert_user_job(id, job_id, user_id),
            };
            if done.is_err() {
                proof {
                    assert(front.with_link(job_id, rows@[i as int]) is None);
                    assert(base.with_links(job_id, rows@.take(i + 1)) is None);
                    lemma_refused_stays_refused(base, job_id, rows@, i as int + 1);
                }
                return Err(StoreError::CantAdd);
            }
            i += 1;
        }
        proof {
            rows@.lemma_take_len();
        }
        Ok(())
    }
}

/// Once a prefix of the rows is refused, the whole is.
pub proof fn lemma_refused_stays_refused(
    base: DatabaseView,
    job_id: u128,
    rows: Seq<LinkageRow>,
    n: int,
)
    requires
        0 <= n <= rows.len(),
        base.with_links(job_id, rows.take(n)) is None,
    ensures
        base.with_links(job_id, rows) is None,
    decreases rows.len() - n,
{
    if n < rows.len() {
        rows.lemma_take_succ_push(n);
        assert(rows.take(n + 1).drop_last() =~= rows.take(n));
        lemma_refused_stays_refused(base, job_id, rows, n + 1);
    } else {
        rows.lemma_take_len();
    }
}

/// The two extension points of the metadata store.
///
/// `before_job_add` may veto an insert; `after_job_add` names the linkage
/// rows that are stored with the job, in the same transaction. An
/// implementation states what its answers may be in `may_veto` and
/// `may_link`; the store's contract is stated over these.
pub trait JobCallbacksExtension {
    /// Whether `answer` is a possible result of the pre-insert check. Hooks
    /// that say nothing of themselves may answer anything.
    open spec fn may_veto(
        &self,
        job: JobView,
        extra: JobExtraData,
        db: DatabaseView,
        answer: Result<bool, StoreError>,
    ) -> bool {
        true
    }

    /// Whether `answer` is a possible result of the post-insert callback.
    /// Hooks that say nothing of themselves may answer anything.
    open spec fn may_link(
        &self,
        job: JobView,
        extra: JobExtraData,
        tx: DatabaseView,
        answer: Result<Seq<LinkageRow>, StoreError>,
    ) -> bool {
        true
    }

    /// The pre-insert check, on the committed content: `Ok(true)` vetoes the
    /// insert, which then counts as done.
    fn before_job_add(&self, job: &Job, extra: &JobExtraData, db: &Database) -> (r: Result<
        bool,
        StoreError,
    >)
        requires
            db.wf(),
        ensures
            self.may_veto(job@, *extra, db@, r),
    ;

    /// The post-insert callback, on the content of the open transaction, in
    /// which the job row is already written.
    fn after_job_add(&self, job: &Job, extra: &JobExtraData, tx: &Database) -> (r: Result<
        Vec<LinkageRow>,
        StoreError,
    >)
        requires
            tx.wf(),
        ensures
            self.may_link(job@, *extra, tx@, linkage_answer(r)),
    ;
}

/// The mathematical value of what a post-insert callback returned.
pub open spec fn linkage_answer(r: Result<Vec<LinkageRow>, StoreError>) -> Result<
    Seq<LinkageRow>,
    StoreError,
> {
    match r {
        Ok(rows) => Ok(rows@),
        Err(e) => Err(e),
    }
}

/// No hooks: nothing is vetoed, and a job gets no linkage rows.
#[derive(Clone, Copy, Debug)]
pub struct NoCallbacks;

impl JobCallbacksExtension for NoCallbacks {
    open spec fn may_veto(
        &self,
        job: JobView,
        extra: JobExtraData,
        db: DatabaseView,
        answer: Result<bool, StoreError>,
    ) -> bool {
        answer == Ok::<bool, StoreError>(false)
    }

    open spec fn may_link(
        &self,
        job: JobView,
        extra: JobExtraData,
        tx: DatabaseView,
        answer: Result<Seq<LinkageRow>, StoreError>,
    ) -> bool {
        answer == Ok::<Seq<LinkageRow>, StoreError>(Seq::empty())
    }

    fn before_job_add(&self, job: &Job, extra: &JobExtraData, db: &Database) -> (r: Result<
        bool,
        StoreError,
    >) {
        Ok(false)
    }

    fn after_job_add(&self, job: &Job, extra: &JobExtraData, tx: &Database) -> (r: Result<
        Vec<LinkageRow>,
        StoreError,
    >) {
        Ok(Vec::new())
    }
}

/// The hooks of jobs that a user owns: a user has at most one job of each
/// extension type.
#[derive(Clone, Copy, Debug)]
pub struct JobCallbacks;

/// The linkage of an owned job: its extension type, and its owner under a
/// key of the hook's choice.
pub open spec fn owner_linkage(extra: JobExtraData, rows: Seq<LinkageRow>) -> bool {
    &&& rows.len() == 2
    &&& rows[0] == LinkageRow::JobExtension { extension_type: extra.extension_type }
    &&& rows[1] matches LinkageRow::UserJob { user_id, .. }
    &&& user_id == extra.user_id
}

impl JobCallbacksExtension for JobCallbacks {
    /// Vetoes exactly when the owner already has a job of the extension type.
    open spec fn may_veto(
        &self,
        job: JobView,
        extra: JobExtraData,
        db: DatabaseView,
        answer: Result<bool, StoreError>,
    ) -> bool {
        answer == Ok::<bool, StoreError>(
            db.linked(extra.user_id, extra.extension_type.spec_code()),
        )
    }

    open spec fn may_link(
        &self,
        job: JobView,
        extra: JobExtraData,
        tx: DatabaseView,
        answer: Result<Seq<LinkageRow>, StoreError>,
    ) -> bool {
        answer matches Ok(rows) && owner_linkage(extra, rows)
    }

    fn before_job_add(&self, job: &Job, extra: &JobExtraData, db: &Database) -> (r: Result<
        bool,
        StoreError,
    >) {
        Ok(db.linkage_exists(extra.extension_type.code(), extra.user_id))
    }

    fn after_job_add(&self, job: &Job, extra: &JobExtraData, tx: &Database) -> (r: Result<
        Vec<LinkageRow>,
        StoreError,
    >) {
        Ok(JobCallbacks::linkage(extra))
    }
}

impl JobCallbacks {
    /// The linkage rows of an owned job: its extension type, and its owner
    /// under a fresh random key.
    pub fn linkage(extra: &JobExtraData) -> (rows: Vec<LinkageRow>)
        ensures
            owner_linkage(*extra, rows@),
            rows@[1]->UserJob_id & ID_KIND_MASK == ID_KIND_RANDOM,
    {
        let mut rows: Vec<LinkageRow> = Vec::new();
        rows.push(LinkageRow::JobExtension { extension_type: extra.extension_type });
        rows.push(LinkageRow::UserJob { id: random_row_id(), user_id: extra.user_id });
        rows
    }
}

/// The hooks of jobs that belong to nobody: nothing is vetoed, and the job
/// is tagged with its extension type.
#[derive(Clone, Copy, Debug)]
pub struct SchedulerCallbacks;

impl JobCallbacksExtension for SchedulerCallbacks {
    open spec fn may_veto(
        &self,
        job: JobView,
        extra: JobExtraData,
        db: DatabaseView,
        answer: Result<bool, StoreError>,
    ) -> bool {
        answer == Ok::<bool, StoreError>(false)
    }

    open spec fn may_link(
        &self,
        job: JobView,
        extra: JobExtraData,
        tx: DatabaseView,
        answer: Result<Seq<LinkageRow>, StoreError>,
    ) -> bool {
        answer == Ok::<Seq<LinkageRow>, StoreError>(
            seq![LinkageRow::JobExtension { extension_type: extra.extension_type }],
        )
    }

    fn before_job_add(&self, job: &Job, extra: &JobExtraData, db: &Database) -> (r: Result<
        bool,
        StoreError,
    >) {
        Ok(false)
    }

    fn after_job_add(&self, job: &Job, extra: &JobExtraData, tx: &Database) -> (r: Result<
        Vec<LinkageRow>,
        StoreError,
    >) {
        Ok(SchedulerCallbacks::linkage(extra))
    }
}

impl SchedulerCallbacks {
    /// The linkage row of a job that belongs to nobody: its extension type.
    pub fn linkage(extra: &JobExtraData) -> (rows: Vec<LinkageRow>)
        ensures
            rows@ == seq![LinkageRow::JobExtension { extension_type: extra.extension_type }],
    {
        let mut rows: Vec<LinkageRow> = Vec::new();
        rows.push(LinkageRow::JobExtension { extension_type: extra.extension_type });
        assert(rows@ =~= seq![LinkageRow::JobExtension { extension_type: extra.extension_type }]);
        rows
    }
}

/// Version and variant bits of a 128-bit identifier.
pub const ID_KIND_MASK: u128 = 0xf000_c000_0000_0000_0000;

/// The version and variant bits of a random identifier.
pub const ID_KIND_RANDOM: u128 = 0x4000_8000_0000_0000_0000;

/// A fresh random identifier for a row, from `uuid::Uuid::new_v4`.
///
/// Its 122 random bits are anyone's guess; the other six mark it as a
/// random (version 4) identifier, and that is all the contract says. Where
/// the system has no random bytes to give, the call panics and does not
/// return.
#[verifier::external_body]
fn random_row_id() -> (id: u128)
    ensures
        id & ID_KIND_MASK == ID_KIND_RANDOM,
{
    uuid::Uuid::new_v4().as_u128()
}

} // verus!
