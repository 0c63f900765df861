//! A small CSV-to-JSON service library.
//!
//! CSV text is parsed into [`record::Record`] values, the current record set
//! is held in a [`store::AppState`], and the handler functions in
//! [`handlers`] compute the HTTP responses for the read and upload paths.

pub mod handlers;
pub mod json;
pub mod parser;
pub mod record;
pub mod store;
pub mod text;
