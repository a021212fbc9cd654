//! Work types: what a worker is able to do, and how much of it at a time.
pub mod dto;
pub mod laws;
pub mod model;
pub mod process_mapping;
pub mod repo;
pub mod service;
