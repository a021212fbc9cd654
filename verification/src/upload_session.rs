//! Upload sessions: direct uploads to object storage with short-lived
//! credentials, kept per user and scope.
pub mod dto;
pub mod files;
pub mod laws;
pub mod repo;
pub mod service;
