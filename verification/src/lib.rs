//! A library for managing local installations of the Godot game engine:
//! scanning directories for engine projects, deriving engine metadata from
//! release-asset names, tracking in-flight downloads, and reconciling freshly
//! scanned project data with previously persisted metadata.

pub mod directory;
pub mod environmnet;
pub mod fetcher;
pub mod godot_service;
pub mod news;
pub mod project;
pub mod scan;
pub mod service;
pub mod session;
pub mod text;
