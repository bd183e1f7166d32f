//! What the screens of the workspace compute: tree order, task lists,
//! statistics, editor helpers, browser addresses and file-explorer tabs.

pub mod app;
pub mod browser;
pub mod editor;
pub mod file_explorer;
pub mod markdown;
pub mod settings;
pub mod sidebar;
pub mod task_view;
