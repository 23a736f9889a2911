//! The news-entry record handed to the display layer.

pub mod news;
