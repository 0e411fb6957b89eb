//! An in-memory catalog of book records keyed by ISBN, with the encoding of
//! its persisted form and the reading of a bibliographic lookup response.

pub mod book;
pub mod handlers;
pub mod json;
pub mod lookup;
pub mod registry;
