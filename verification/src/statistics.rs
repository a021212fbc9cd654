//! Statistics over orders, deliveries and workers.
pub mod daily;
pub mod dto;
pub mod handler;
pub mod laws;
pub mod repo;
pub mod service;
