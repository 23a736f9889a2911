//! Engine metadata: deriving an engine version from a release-asset name and
//! the registry operations over installed versions.

pub mod godot_engine_service;
pub mod godot_engine_version;
