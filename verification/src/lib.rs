//! Storage backend of a tick-based job scheduler, with the text helpers of the
//! bots that run on it.
//!
//! The relational schema is held as an in-memory [`db::database::Database`];
//! the two stores ([`db::postgres_metadata_store::PostgresMetadataStore`] and
//! [`db::postgres_notification_store::PostgresNotificationStore`]) are the
//! operations a scheduler engine needs on it.

pub mod api;
pub mod db;
pub mod error;
pub mod hadith;
pub mod i18n;
pub mod text;
