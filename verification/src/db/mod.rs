//! Rows, the relational model they live in, and the stores on top of it.

pub mod database;
pub mod job;
pub mod laws;
pub mod postgres_metadata_store;
pub mod postgres_notification_store;
pub mod registration;
pub mod table;
pub mod tables;
