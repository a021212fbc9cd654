//! Decision logic of a workshop ERP back end: upload sessions, the worker pool,
//! workers, users, shelves, work types and statistics.
//!
//! Every endpoint is a function from the request and from what the outside
//! world has answered so far to the next thing to do. The surrounding program
//! performs the reads and writes; which of them happen, in which order and with
//! which values, is decided and proved here.
pub mod auth;
pub mod calendar;
pub mod clock;
pub mod error;
pub mod flow;
pub mod laws;
pub mod mapping;
pub mod paging;
pub mod patch;
pub mod shelf;
pub mod statistics;
pub mod text;
pub mod upload_session;
pub mod user;
pub mod work_type;
pub mod worker;
pub mod worker_pool;
