//! Mote: the verified core of a lightweight, offline-first workspace for
//! documents, tasks and notes.

pub mod text;
pub mod paths;
pub mod models;
pub mod storage;
pub mod time;
pub mod ui;
