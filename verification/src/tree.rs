//! The schema tree: the in-memory representation of a parsed schema.

pub mod message;
pub mod parse;
pub mod round_trip;
pub mod source;
pub mod util;
pub mod var;
