//! Job rows, job descriptors, and the lossless mapping between the two.

use vstd::prelude::*;
use crate::db::table::Row;
use crate::error::StoreError;

verus! {

/// Largest repeat interval that a row can hold.
pub const MAX_REPEATED_EVERY: u64 = 0x7fff_ffff;

/// A 128-bit identifier as the scheduler engine carries it: two 64-bit
/// segments, the first holding the eight most significant bytes.
#[derive(Clone, Copy, Debug, PartialEq, Eq, Structural)]
pub struct JobUuid {
    pub id1: u64,
    pub id2: u64,
}

/// The 128-bit value whose big-endian bytes are those of `id1` followed by
/// those of `id2`: `id1` times 2^64, plus `id2`.
pub open spec fn join_id(id1: u64, id2: u64) -> u128 {
    (id1 * 0x1_0000_0000_0000_0000 + id2) as u128
}

/// The two segments of a 128-bit value, most significant first: the
/// quotient and the remainder of a division by 2^64.
pub open spec fn split_id(id: u128) -> JobUuid {
    JobUuid {
        id1: (id / 0x1_0000_0000_0000_0000) as u64,
        id2: (id % 0x1_0000_0000_0000_0000) as u64,
    }
}

/// Joining the segments of a value gives the value back, and the other way round.
pub proof fn lemma_id_roundtrip(id: u128, id1: u64, id2: u64)
    ensures
        join_id(split_id(id).id1, split_id(id).id2) == id,
        split_id(join_id(id1, id2)) == (JobUuid { id1, id2 }),
{
}

impl JobUuid {
    /// Splits a 128-bit identifier into its two segments.
    pub fn from_u128(id: u128) -> (r: JobUuid)
        ensures
            r == split_id(id),
    {
        JobUuid {
            id1: (id / 0x1_0000_0000_0000_0000) as u64,
            id2: (id % 0x1_0000_0000_0000_0000) as u64,
        }
    }

    /// Rebuilds the 128-bit identifier from the two segments.
    pub fn as_u128(&self) -> (r: u128)
        ensures
            r == join_id(self.id1, self.id2),
    {
        (self.id1 as u128) * 0x1_0000_0000_0000_0000 + (self.id2 as u128)
    }
}

/// The signed number that has the 64 bits of an unsigned one.
pub open spec fn signed64(v: u64) -> i64 {
    if v <= 0x7fff_ffff_ffff_ffff {
        v as i64
    } else {
        (v - 0x1_0000_0000_0000_0000) as i64
    }
}

/// The unsigned number that has the 64 bits of a signed one.
pub open spec fn unsigned64(v: i64) -> u64 {
    if v >= 0 {
        v as u64
    } else {
        (v + 0x1_0000_0000_0000_0000) as u64
    }
}

/// The signed number that has the 32 bits of an unsigned one.
pub open spec fn signed32(v: u32) -> i32 {
    if v <= 0x7fff_ffff {
        v as i32
    } else {
        (v - 0x1_0000_0000) as i32
    }
}

/// The unsigned number that has the 32 bits of a signed one.
pub open spec fn unsigned32(v: i32) -> u32 {
    if v >= 0 {
        v as u32
    } else {
        (v + 0x1_0000_0000) as u32
    }
}

/// The value of the `repeated_every` column for a repeat interval: the
/// signed number that has its 32 low bits.
pub open spec fn interval_to_column(v: u64) -> i32 {
    signed32((v % 0x1_0000_0000) as u32)
}

/// The repeat interval that a `repeated_every` column stands for: the
/// unsigned 64-bit number that has the bits of the column, sign-extended.
pub open spec fn column_to_interval(v: i32) -> u64 {
    unsigned64(v as i64)
}

/// The signed number that has the 64 bits of an unsigned one.
pub fn to_signed64(v: u64) -> (r: i64)
    ensures
        r == signed64(v),
{
    if v <= 0x7fff_ffff_ffff_ffff {
        v as i64
    } else {
        ((v - 0x8000_0000_0000_0000) as i64) + i64::MIN
    }
}

/// The unsigned number that has the 64 bits of a signed one.
pub fn to_unsigned64(v: i64) -> (r: u64)
    ensures
        r == unsigned64(v),
{
    if v >= 0 {
        v as u64
    } else {
        ((v - i64::MIN) as u64) + 0x8000_0000_0000_0000
    }
}

/// The signed number that has the 32 bits of an unsigned one.
pub fn to_signed32(v: u32) -> (r: i32)
    ensures
        r == signed32(v),
{
    if v <= 0x7fff_ffff {
        v as i32
    } else {
        ((v - 0x8000_0000) as i32) + i32::MIN
    }
}

/// The unsigned number that has the 32 bits of a signed one.
pub fn to_unsigned32(v: i32) -> (r: u32)
    ensures
        r == unsigned32(v),
{
    if v >= 0 {
        v as u32
    } else {
        ((v - i32::MIN) as u32) + 0x8000_0000
    }
}

/// The four conversions are inverses in pairs, and a repeat interval that
/// a row can hold comes back from its column.
pub proof fn lemma_columns_roundtrip(a: u64, b: u32)
    ensures
        unsigned64(signed64(a)) == a,
        unsigned32(signed32(b)) == b,
        a <= MAX_REPEATED_EVERY ==> column_to_interval(interval_to_column(a)) == a,
{
}

/// The kind of a job, as the `job_type` column encodes it.
#[derive(Clone, Copy, Debug, PartialEq, Eq, Structural)]
pub enum JobType {
    Cron,
    Repeated,
    OneShot,
}

impl JobType {
    /// The column code of each kind.
    pub open spec fn spec_code(self) -> i32 {
        match self {
            JobType::Cron => 0,
            JobType::Repeated => 1,
            JobType::OneShot => 2,
        }
    }

    /// The kind that a column code stands for, if any.
    pub open spec fn spec_from_code(code: i32) -> Option<JobType> {
        if code == 0 {
            Some(JobType::Cron)
        } else if code == 1 {
            Some(JobType::Repeated)
        } else if code == 2 {
            Some(JobType::OneShot)
        } else {
            None
        }
    }

    pub fn code(self) -> (r: i32)
        ensures
            r == self.spec_code(),
    {
        match self {
            JobType::Cron => 0,
            JobType::Repeated => 1,
            JobType::OneShot => 2,
        }
    }

    /// Decodes a column code; codes other than 0, 1 and 2 stand for no kind.
    pub fn from_code(code: i32) -> (r: Option<JobType>)
        ensures
            r == JobType::spec_from_code(code),
    {
        if code == 0 {
            Some(JobType::Cron)
        } else if code == 1 {
            Some(JobType::Repeated)
        } else if code == 2 {
            Some(JobType::OneShot)
        } else {
            None
        }
    }
}


/// The schedule of a cron job.
#[derive(Clone, Debug, PartialEq, Eq)]
pub struct CronJob {
    pub schedule: String,
}

/// The repetition of a one-shot or repeating job.
#[derive(Clone, Copy, Debug, PartialEq, Eq, Structural)]
pub struct NonCronJob {
    pub repeating: bool,
    pub repeated_every: u64,
}

/// What a job runs on: a cron schedule, or a repeat interval.
#[derive(Clone, Debug, PartialEq, Eq)]
pub enum StoredJob {
    CronJob(CronJob),
    NonCronJob(NonCronJob),
}

/// Mathematical value of a [`StoredJob`].
pub enum StoredJobView {
    CronJob { schedule: Seq<char> },
    NonCronJob { repeating: bool, repeated_every: u64 },
}

impl View for StoredJob {
    type V = StoredJobView;

    open spec fn view(&self) -> StoredJobView {
        match *self {
            StoredJob::CronJob(c) => StoredJobView::CronJob { schedule: c.schedule@ },
            StoredJob::NonCronJob(n) => StoredJobView::NonCronJob {
                repeating: n.repeating,
                repeated_every: n.repeated_every,
            },
        }
    }
}

/// A job as the scheduler engine holds it in memory.
#[derive(Clone, Debug, PartialEq, Eq)]
pub struct JobStoredData {
    pub id: Option<JobUuid>,
    pub last_updated: Option<u64>,
    pub last_tick: Option<u64>,
    pub next_tick: u64,
    pub job_type: i32,
    pub count: u32,
    pub extra: Vec<u8>,
    pub ran: bool,
    pub stopped: bool,
    pub time_offset_seconds: i32,
    pub job: Option<StoredJob>,
}

/// Mathematical value of a [`JobStoredData`].
pub struct JobStoredDataView {
    pub id: Option<JobUuid>,
    pub last_updated: Option<u64>,
    pub last_tick: Option<u64>,
    pub next_tick: u64,
    pub job_type: i32,
    pub count: u32,
    pub extra: Seq<u8>,
    pub ran: bool,
    pub stopped: bool,
    pub time_offset_seconds: i32,
    pub job: Option<StoredJobView>,
}

impl View for JobStoredData {
    type V = JobStoredDataView;

    open spec fn view(&self) -> JobStoredDataView {
        JobStoredDataView {
            id: self.id,
            last_updated: self.last_updated,
            last_tick: self.last_tick,
            next_tick: self.next_tick,
            job_type: self.job_type,
            count: self.count,
            extra: self.extra@,
            ran: self.ran,
            stopped: self.stopped,
            time_offset_seconds: self.time_offset_seconds,
            job: match self.job {
                Some(j) => Some(j@),
                None => None,
            },
        }
    }
}

impl JobStoredDataView {
    /// A descriptor that the engine can hand to the store: it has an
    /// identifier, a known kind, the one payload that its kind selects, and a
    /// repeat interval that a row can hold.
    pub open spec fn valid(self) -> bool {
        &&& self.id is Some
        &&& JobType::spec_from_code(self.job_type) is Some
        &&& match self.job {
            Some(StoredJobView::CronJob { .. }) => self.job_type == JobType::Cron.spec_code(),
            Some(StoredJobView::NonCronJob { repeated_every, .. }) => {
                &&& self.job_type != JobType::Cron.spec_code()
                &&& repeated_every <= MAX_REPEATED_EVERY
            },
            None => false,
        }
    }
}

/// One row of the `jobs` table.
#[derive(Debug, PartialEq, Eq)]
pub struct Job {
    pub id: u128,
    pub last_updated: Option<i64>,
    pub next_tick: Option<i64>,
    pub last_tick: Option<i64>,
    pub job_type: i32,
    pub count: Option<i32>,
    pub ran: Option<bool>,
    pub stopped: Option<bool>,
    pub time_offset_seconds: Option<i32>,
    pub extra: Option<Vec<u8>>,
    pub schedule: Option<String>,
    pub repeated_every: Option<i32>,
    pub repeating: Option<bool>,
}

/// Mathematical value of a [`Job`] row.
pub struct JobView {
    pub id: u128,
    pub last_updated: Option<i64>,
    pub next_tick: Option<i64>,
    pub last_tick: Option<i64>,
    pub job_type: i32,
    pub count: Option<i32>,
    pub ran: Option<bool>,
    pub stopped: Option<bool>,
    pub time_offset_seconds: Option<i32>,
    pub extra: Option<Seq<u8>>,
    pub schedule: Option<Seq<char>>,
    pub repeated_every: Option<i32>,
    pub repeating: Option<bool>,
}

impl View for Job {
    type V = JobView;

    open spec fn view(&self) -> JobView {
        JobView {
            id: self.id,
            last_updated: self.last_updated,
            next_tick: self.next_tick,
            last_tick: self.last_tick,
            job_type: self.job_type,
            count: self.count,
            ran: self.ran,
            stopped: self.stopped,
            time_offset_seconds: self.time_offset_seconds,
            extra: match self.extra {
                Some(e) => Some(e@),
                None => None,
            },
            schedule: match self.schedule {
                Some(s) => Some(s@),
                None => None,
            },
            repeated_every: self.repeated_every,
            repeating: self.repeating,
        }
    }
}

/// A timestamp of the engine as the signed column stores it.
pub open spec fn tick_to_column(t: Option<u64>) -> Option<i64> {
    match t {
        Some(v) => Some(signed64(v)),
        None => None,
    }
}

/// A signed column read back as a timestamp of the engine.
pub open spec fn column_to_tick(c: Option<i64>) -> Option<u64> {
    match c {
        Some(v) => Some(unsigned64(v)),
        None => None,
    }
}

/// The row that stores a descriptor.
///
/// Unsigned values go into the signed columns bit for bit. The schedule is
/// kept for cron jobs only, the repeat flag and interval for the others.
pub open spec fn spec_to_row(d: JobStoredDataView) -> JobView
    recommends
        d.id is Some,
{
    JobView {
        id: join_id(d.id->0.id1, d.id->0.id2),
        last_updated: tick_to_column(d.last_updated),
        next_tick: Some(signed64(d.next_tick)),
        last_tick: tick_to_column(d.last_tick),
        job_type: d.job_type,
        count: Some(signed32(d.count)),
        ran: Some(d.ran),
        stopped: Some(d.stopped),
        time_offset_seconds: Some(d.time_offset_seconds),
        extra: Some(d.extra),
        schedule: match d.job {
            Some(StoredJobView::CronJob { schedule }) => Some(schedule),
            _ => None,
        },
        repeated_every: match d.job {
            Some(StoredJobView::NonCronJob { repeated_every, .. }) => Some(
                interval_to_column(repeated_every),
            ),
            _ => None,
        },
        repeating: match d.job {
            Some(StoredJobView::NonCronJob { repeating, .. }) => Some(repeating),
            _ => Some(false),
        },
    }
}

/// The invariant of a job row: its kind is known, and of schedule and
/// repeat interval exactly the one that the kind selects is there.
pub open spec fn row_is_valid(j: JobView) -> bool {
    match JobType::spec_from_code(j.job_type) {
        Some(JobType::Cron) => j.schedule is Some && j.repeated_every is None,
        Some(_) => j.schedule is None && j.repeated_every is Some,
        None => false,
    }
}

/// The row of a valid descriptor keeps the invariant of job rows.
pub proof fn lemma_valid_descriptor_gives_valid_row(d: JobStoredDataView)
    requires
        d.valid(),
    ensures
        row_is_valid(spec_to_row(d)),
        row_is_readable(spec_to_row(d)),
{
}

/// Whether a row can be read back: its kind is known, and a cron row has its
/// schedule.
pub open spec fn row_is_readable(j: JobView) -> bool {
    match JobType::spec_from_code(j.job_type) {
        Some(JobType::Cron) => j.schedule is Some,
        Some(_) => true,
        None => false,
    }
}

/// The descriptor that a readable row stands for. Columns that are null read
/// as zero, `false` or empty, except the two optional timestamps.
pub open spec fn spec_row_descriptor(j: JobView) -> JobStoredDataView
    recommends
        row_is_readable(j),
{
    JobStoredDataView {
        id: Some(split_id(j.id)),
        last_updated: column_to_tick(j.last_updated),
        last_tick: column_to_tick(j.last_tick),
        next_tick: match j.next_tick {
            Some(v) => unsigned64(v),
            None => 0,
        },
        job_type: j.job_type,
        count: match j.count {
            Some(c) => unsigned32(c),
            None => 0,
        },
        extra: match j.extra {
            Some(e) => e,
            None => Seq::empty(),
        },
        ran: j.ran == Some(true),
        stopped: j.stopped == Some(true),
        time_offset_seconds: match j.time_offset_seconds {
            Some(t) => t,
            None => 0,
        },
        job: Some(
            if j.job_type == JobType::Cron.spec_code() {
                StoredJobView::CronJob { schedule: j.schedule->0 }
            } else {
                StoredJobView::NonCronJob {
                    repeating: j.repeating == Some(true),
                    repeated_every: match j.repeated_every {
                        Some(r) => column_to_interval(r),
                        None => 0,
                    },
                }
            },
        ),
    }
}

/// Reading a row: the descriptor it stands for, or a mapping failure where
/// the kind is unknown or a cron row lacks its schedule.
pub open spec fn spec_to_descriptor(j: JobView) -> Result<JobStoredDataView, StoreError> {
    if row_is_readable(j) {
        Ok(spec_row_descriptor(j))
    } else {
        Err(StoreError::MappingFailure)
    }
}

/// Round trip: a valid descriptor, stored as a row and read back, is the
/// descriptor itself.
pub proof fn lemma_round_trip(d: JobStoredDataView)
    requires
        d.valid(),
    ensures
        spec_to_descriptor(spec_to_row(d)) == Ok::<JobStoredDataView, StoreError>(d),
{
    let row = spec_to_row(d);
    let back = spec_row_descriptor(row);
    lemma_id_roundtrip(0, d.id->0.id1, d.id->0.id2);
    assert(back.extra == d.extra);
    assert(back.job == d.job);
    assert(back == d);
}

/// A row that came from a valid descriptor maps back to a descriptor that
/// gives the same row: on such rows the two mappings are inverses.
pub proof fn lemma_row_round_trip(d: JobStoredDataView)
    requires
        d.valid(),
    ensures
        spec_to_descriptor(spec_to_row(d)) is Ok,
        spec_to_row(spec_to_descriptor(spec_to_row(d))->Ok_0) == spec_to_row(d),
{
    lemma_round_trip(d);
}

fn tick_column(t: Option<u64>) -> (r: Option<i64>)
    ensures
        r == tick_to_column(t),
{
    match t {
        Some(v) => Some(to_signed64(v)),
        None => None,
    }
}

fn column_tick(c: Option<i64>) -> (r: Option<u64>)
    ensures
        r == column_to_tick(c),
{
    match c {
        Some(v) => Some(to_unsigned64(v)),
        None => None,
    }
}

impl Job {
    /// Maps the engine's descriptor to the row that stores it.
    ///
    /// The row of a valid descriptor reads back as that descriptor.
    pub fn from_descriptor(data: JobStoredData) -> (job: Job)
        requires
            data.id is Some,
        ensures
            job@ == spec_to_row(data@),
            data@.valid() ==> spec_to_descriptor(job@) == Ok::<JobStoredDataView, StoreError>(
                data@,
            ),
    {
        proof {
            if data@.valid() {
                lemma_round_trip(data@);
            }
        }
        let id = match data.id {
            Some(u) => u.as_u128(),
            None => 0,
        };
        let last_updated = tick_column(data.last_updated);
        let last_tick = tick_column(data.last_tick);
        let next_tick: i64 = to_signed64(data.next_tick);
        let count: i32 = to_signed32(data.count);
        let (schedule, repeated_every, repeating) = match data.job {
            Some(StoredJob::CronJob(c)) => (Some(c.schedule), None, false),
            Some(StoredJob::NonCronJob(n)) => {
                let every: i32 = to_signed32((n.repeated_every % 0x1_0000_0000) as u32);
                (None, Some(every), n.repeating)
            },
            None => (None, None, false),
        };
        Job {
            id,
            last_updated,
            next_tick: Some(next_tick),
            last_tick,
            job_type: data.job_type,
            count: Some(count),
            ran: Some(data.ran),
            stopped: Some(data.stopped),
            time_offset_seconds: Some(data.time_offset_seconds),
            extra: Some(data.extra),
            schedule,
            repeated_every,
            repeating: Some(repeating),
        }
    }

    /// Maps a row back to the engine's descriptor.
    ///
    /// Fails with `MappingFailure` exactly when the row's kind is unknown or
    /// the row is tagged cron and has no schedule.
    pub fn to_descriptor(self) -> (r: Result<JobStoredData, StoreError>)
        ensures
            match r {
                Ok(d) => Ok::<JobStoredDataView, StoreError>(d@) == spec_to_descriptor(self@),
                Err(e) => Err::<JobStoredDataView, StoreError>(e) == spec_to_descriptor(self@),
            },
    {
        let kind = match JobType::from_code(self.job_type) {
            Some(k) => k,
            None => {
                return Err(StoreError::MappingFailure);
            },
        };
        let job = match kind {
            JobType::Cron => match self.schedule {
                Some(schedule) => StoredJob::CronJob(CronJob { schedule }),
                None => {
                    return Err(StoreError::MappingFailure);
                },
            },
            _ => StoredJob::NonCronJob(
                NonCronJob {
                    repeating: match self.repeating {
                        Some(b) => b,
                        None => false,
                    },
                    repeated_every: match self.repeated_every {
                        Some(r) => to_unsigned64(r as i64),
                        None => 0,
                    },
                },
            ),
        };
        let data = JobStoredData {
            id: Some(JobUuid::from_u128(self.id)),
            last_updated: column_tick(self.last_updated),
            last_tick: column_tick(self.last_tick),
            next_tick: match self.next_tick {
                Some(v) => to_unsigned64(v),
                None => 0,
            },
            job_type: self.job_type,
            count: match self.count {
                Some(c) => to_unsigned32(c),
                None => 0,
            },
            extra: match self.extra {
                Some(e) => e,
                None => Vec::new(),
            },
            ran: match self.ran {
                Some(b) => b,
                None => false,
            },
            stopped: match self.stopped {
                Some(b) => b,
                None => false,
            },
            time_offset_seconds: match self.time_offset_seconds {
                Some(t) => t,
                None => 0,
            },
            job: Some(job),
        };
        Ok(data)
    }
}

impl Clone for Job {
    fn clone(&self) -> (r: Job)
        ensures
            r@ == self@,
    {
        Job {
            id: self.id,
            last_updated: self.last_updated,
            next_tick: self.next_tick,
            last_tick: self.last_tick,
            job_type: self.job_type,
            count: self.count,
            ran: self.ran,
            stopped: self.stopped,
            time_offset_seconds: self.time_offset_seconds,
            extra: match &self.extra {
                Some(e) => Some(clone_bytes(e)),
                None => None,
            },
            schedule: match &self.schedule {
                Some(s) => Some(s.clone()),
                None => None,
            },
            repeated_every: self.repeated_every,
            repeating: self.repeating,
        }
    }
}

impl Row for Job {
    fn copy_row(&self) -> (r: Job) {
        self.clone()
    }
}

/// A copy of a byte string.
pub fn clone_bytes(v: &Vec<u8>) -> (r: Vec<u8>)
    ensures
        r@ == v@,
{
    let mut out: Vec<u8> = Vec::new();
    let mut i: usize = 0;
    while i < v.len()
        invariant
            i <= v.len(),
            out@ == v@.subrange(0, i as int),
        decreases v.len() - i,
    {
        out.push(v[i]);
        i += 1;
    }
    assert(v@.subrange(0, v@.len() as int) == v@);
    out
}


/// A due job as the scheduler engine wants it listed.
#[derive(Clone, Copy, Debug, PartialEq, Eq, Structural)]
pub struct JobAndNextTick {
    pub id: Option<JobUuid>,
    pub job_type: i32,
    pub next_tick: u64,
    pub last_tick: Option<u64>,
}

/// The listing of a job row: its identifier in two segments, its kind, and
/// its ticks read back as unsigned; a null next tick reads as 0.
pub open spec fn tick_entry(job: JobView) -> JobAndNextTick {
    JobAndNextTick {
        id: Some(split_id(job.id)),
        job_type: job.job_type,
        next_tick: match job.next_tick {
            Some(t) => unsigned64(t),
            None => 0,
        },
        last_tick: column_to_tick(job.last_tick),
    }
}

impl JobAndNextTick {
    /// Builds the listing from the columns of a row.
    pub fn from_columns(id: u128, next_tick: Option<i64>, job_type: i32, last_tick: Option<i64>)
        -> (r: JobAndNextTick)
        ensures
            r.id == Some(split_id(id)),
            r.job_type == job_type,
            r.next_tick == match next_tick {
                Some(t) => unsigned64(t),
                None => 0,
            },
            r.last_tick == column_to_tick(last_tick),
    {
        JobAndNextTick {
            id: Some(JobUuid::from_u128(id)),
            job_type,
            next_tick: match next_tick {
                Some(t) => to_unsigned64(t),
                None => 0,
            },
            last_tick: column_tick(last_tick),
        }
    }
}


/// A lifecycle state that a notification can be marked with.
#[derive(Clone, Copy, Debug, PartialEq, Eq, Structural)]
pub enum JobNotification {
    Stop,
    Scheduled,
    Started,
    Done,
    Removed,
}

impl JobNotification {
    /// The integer that stands for each state in `notification_states`.
    pub open spec fn spec_code(self) -> i32 {
        match self {
            JobNotification::Stop => 0,
            JobNotification::Scheduled => 1,
            JobNotification::Started => 2,
            JobNotification::Done => 3,
            JobNotification::Removed => 4,
        }
    }

    pub fn code(self) -> (r: i32)
        ensures
            r == self.spec_code(),
    {
        match self {
            JobNotification::Stop => 0,
            JobNotification::Scheduled => 1,
            JobNotification::Started => 2,
            JobNotification::Done => 3,
            JobNotification::Removed => 4,
        }
    }
}

/// One selected row of `notification_states`.
#[derive(Clone, Copy, Debug, PartialEq, Eq, Structural)]
pub struct NotificationState {
    pub state: i32,
}

/// The identifiers of a notification and of its job, as the engine carries them.
#[derive(Clone, Copy, Debug, PartialEq, Eq, Structural)]
pub struct JobIdAndNotification {
    pub job_id: Option<JobUuid>,
    pub notification_id: Option<JobUuid>,
}

/// A notification as the scheduler engine holds it in memory.
#[derive(Clone, Debug, PartialEq, Eq)]
pub struct NotificationData {
    pub job_id: Option<JobIdAndNotification>,
    pub job_states: Vec<i32>,
    pub extra: Vec<u8>,
}

/// Mathematical value of a [`NotificationData`].
pub struct NotificationDataView {
    pub job_id: Option<JobIdAndNotification>,
    pub job_states: Seq<i32>,
    pub extra: Seq<u8>,
}

impl View for NotificationData {
    type V = NotificationDataView;

    open spec fn view(&self) -> NotificationDataView {
        NotificationDataView {
            job_id: self.job_id,
            job_states: self.job_states@,
            extra: self.extra@,
        }
    }
}

impl NotificationDataView {
    /// The keys of the job and of the notification, where both are given.
    pub open spec fn keys(self) -> Option<(u128, u128)> {
        match self.job_id {
            Some(ids) => match (ids.job_id, ids.notification_id) {
                (Some(job), Some(notification)) => Some(
                    (join_id(job.id1, job.id2), join_id(notification.id1, notification.id2)),
                ),
                _ => None,
            },
            None => None,
        }
    }
}

impl NotificationData {
    /// The keys of the job and of the notification, where both are given.
    pub fn job_id_and_notification_id_from_data(&self) -> (r: Option<(u128, u128)>)
        ensures
            r == self@.keys(),
    {
        match self.job_id {
            Some(ids) => match (ids.job_id, ids.notification_id) {
                (Some(job), Some(notification)) => Some((job.as_u128(), notification.as_u128())),
                _ => None,
            },
            None => None,
        }
    }
}

} // verus!
