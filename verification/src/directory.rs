//! The configuration store's path derivations, the document edits it
//! persists, and an earlier cut of the project scanner kept alongside the
//! current one.

pub mod config_directory_service;
pub mod directory;
pub mod project_data;
