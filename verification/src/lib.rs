pub mod actor;
pub mod commands;
pub mod connection;
pub mod laws;
pub mod names;
pub mod render;
pub mod socket;
pub mod text;
