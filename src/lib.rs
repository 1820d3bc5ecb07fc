//! Imports media files into a content-addressed, date-organised tree.
pub mod cache;
pub mod capture;
pub mod copy;
pub mod image;
pub mod import;
pub mod metadata;
pub mod text;
