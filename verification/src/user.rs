//! Users, their roles and the menus they see.
pub mod dto;
pub mod laws;
pub mod menu;
pub mod model;
pub mod repo;
pub mod service;
