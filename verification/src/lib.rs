//! The logic of a GTK client for GitHub Actions: what its repository,
//! workflow, run, job and log views show and decide, with contracts over
//! plain models of the GitHub records.

pub mod text;
pub mod chars;
pub mod errors;
pub mod ansi;
pub mod models;
pub mod digest;
pub mod filters;
pub mod run_list;
pub mod log_parse;
pub mod log_render;
pub mod log_style;
pub mod job_logs;
pub mod run_load;
pub mod refresh;
pub mod selection;
pub mod auth;
pub mod prefs;
pub mod header;
pub mod timing;
pub mod formatting;
pub mod workflow_row;
pub mod job_rows;
pub mod run_actions;
pub mod workflow_list;
pub mod session;

