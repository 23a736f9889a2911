//! An earlier cut of the reconciliation pass, kept alongside the current
//! one: it appends newly found projects to the persisted list instead of
//! reseeding from the scan.

pub mod project_service;
