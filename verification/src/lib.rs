//! A verified core for a small task-management service.
//!
//! Tasks are validated field by field, stored in a SQLite table through
//! `rusqlite`, and served back by three request handlers (list, create,
//! update). The validation rules, the tag encoding, and the effect of each
//! handler on the stored rows are stated as contracts and proved.

pub mod data_validator;
pub mod error_handler;
pub mod database;
pub mod tags;
pub mod task_controller;
