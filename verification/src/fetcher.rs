//! Release-asset handling: the asset descriptors returned by the release
//! lister, filtering them by platform, and the platform name table.

pub mod download_service;
pub mod fetcher;
pub mod os_type;
