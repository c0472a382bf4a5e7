//! Runs an external command-line downloader one job at a time and keeps
//! track of it: the command for a job, the progress that the downloader's
//! output lines report, the state that observers see, and the history of
//! finished jobs. Starting the process and reading its output are left to the
//! caller, who reports what happens as events.

pub mod decimal;
pub mod history;
pub mod progress;
pub mod request;
pub mod runner;
pub mod scan;
pub mod state;
pub mod text;
