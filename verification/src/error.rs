//! Error types returned by the stores and the bots.

use vstd::prelude::*;
use vstd::string::*;

verus! {

/// Failure of a store operation.
#[derive(Clone, Copy, Debug, PartialEq, Eq, Structural)]
pub enum StoreError {
    /// No row has the identifier asked for.
    NotFound,
    /// A row was read but cannot be used.
    FetchFailure,
    /// A row could not be written: validation, a constraint, or a hook refused.
    CantAdd,
    /// A row could not be deleted.
    CantRemove,
    /// The tick bookkeeping of a job could not be updated.
    UpdateFailure,
    /// A row or a descriptor is malformed.
    MappingFailure,
}


/// What went wrong in a bot.
#[derive(Clone, Copy, Debug, PartialEq, Eq, Structural)]
pub enum AppErrorKind {
    SchedulerInitialization,
    ScheduleDailyHadithJob,
    SendDailyHadithMessage,
    GetRandomHadithFromDb,
    MigrationError,
    DatabaseConnectionError,
    ApiRequest,
    WhiteDaysMessage,
}

impl AppErrorKind {
    /// The sentence that describes each kind.
    pub open spec fn spec_message(self) -> Seq<char> {
        match self {
            AppErrorKind::SchedulerInitialization => "Failed to initialize the scheduler"@,
            AppErrorKind::ScheduleDailyHadithJob => "Failed to schedule daily hadith job"@,
            AppErrorKind::SendDailyHadithMessage => "Failed to send daily hadith message"@,
            AppErrorKind::GetRandomHadithFromDb => "Failed to get random hadith from database"@,
            AppErrorKind::MigrationError => "Database migration error"@,
            AppErrorKind::DatabaseConnectionError => "Failed to connect to the database"@,
            AppErrorKind::ApiRequest => "API request failed"@,
            AppErrorKind::WhiteDaysMessage => "Failed to schedule white days message"@,
        }
    }

    /// The sentence that describes the kind.
    pub fn message(&self) -> (r: &'static str)
        ensures
            r@ == self.spec_message(),
    {
        match self {
            AppErrorKind::SchedulerInitialization => "Failed to initialize the scheduler",
            AppErrorKind::ScheduleDailyHadithJob => "Failed to schedule daily hadith job",
            AppErrorKind::SendDailyHadithMessage => "Failed to send daily hadith message",
            AppErrorKind::GetRandomHadithFromDb => "Failed to get random hadith from database",
            AppErrorKind::MigrationError => "Database migration error",
            AppErrorKind::DatabaseConnectionError => "Failed to connect to the database",
            AppErrorKind::ApiRequest => "API request failed",
            AppErrorKind::WhiteDaysMessage => "Failed to schedule white days message",
        }
    }
}

/// An error with the key of the message that tells the user of it.
#[derive(Debug, PartialEq, Eq)]
pub struct AppError {
    pub actual_error: String,
    pub message_translation_key: String,
}

impl AppError {
    pub fn new(actual_error: String, message_translation_key: &str) -> (r: AppError)
        ensures
            r.actual_error == actual_error,
            r.message_translation_key@ == message_translation_key@,
    {
        AppError { actual_error, message_translation_key: message_translation_key.to_owned() }
    }

    /// The error in one line.
    pub open spec fn spec_describe(&self) -> Seq<char> {
        "AppError: "@ + self.actual_error@ + ", Translation Key: "@ + self.message_translation_key@
    }

    /// The error in one line: what happened, and the key of the message for
    /// the user.
    pub fn describe(&self) -> (r: String)
        ensures
            r@ == self.spec_describe(),
    {
        let mut out = String::from_str("AppError: ");
        out.append(self.actual_error.as_str());
        out.append(", Translation Key: ");
        out.append(self.message_translation_key.as_str());
        out
    }
}

} // verus!
