//! Connections to Jupyter servers, remembered per project.

pub mod config;
pub mod connection;
pub mod laws;
pub mod load;
pub mod location;
pub mod path;
pub mod projects;
pub mod save;
pub mod store;
pub mod text;
pub mod trust;
