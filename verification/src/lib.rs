//! Roseflower: the logic of a real-time multiplayer tracking service.

pub mod api;
pub mod config;
pub mod dashboard;
pub mod model;
pub mod probe;
pub mod templates;
pub mod text;
