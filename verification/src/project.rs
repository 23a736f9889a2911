//! Project records and the reconciliation of freshly scanned projects with
//! previously persisted metadata.

pub mod project_data;
pub mod project_service;
