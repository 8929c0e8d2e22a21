//! Tag-length-value data: the values and their tags, conversions between
//! values and host types, and the decoder that fills structures from a
//! stream of records.

pub mod value;
pub mod convert;
pub mod decode;
pub mod structs;
pub mod tag_syntax;
pub mod parser;
pub mod encoder;
