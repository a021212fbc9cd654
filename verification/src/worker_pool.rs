//! The worker pool: batches of parts that wait on production shelves, and the
//! workers that hold them.
pub mod allocate;
pub mod dto;
pub mod handler;
pub mod laws;
pub mod model;
pub mod repo;
pub mod service;
