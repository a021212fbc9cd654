//! Workers: the people on the shop floor.
pub mod dto;
pub mod laws;
pub mod model;
pub mod repo;
pub mod service;
