//! Shelves: where batches wait, and which processes they serve.
pub mod dto;
pub mod laws;
pub mod model;
pub mod process_mapping;
pub mod repo;
pub mod service;
