//! The rules of a task board: who may act on a team's boards, which tasks a
//! query selects, how far a milestone has come, what the audit trail records
//! and how a stopwatch gathers time. The tables themselves live elsewhere;
//! every function here works on the rows it is handed.
pub mod auth;
pub mod board;
pub mod list;
pub mod log;
pub mod milestone;
pub mod task;
pub mod team;
pub mod text;
pub mod timer;
pub mod types;
pub mod user;
pub mod utils;
