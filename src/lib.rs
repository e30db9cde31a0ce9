//! Typed annotation records: a schema of keys, kinds, aliases and defaults; a parser from an
//! annotation's node list to a typed value; and a writer from a value back to nodes.

pub mod attribute;
pub mod convert;
pub mod diag;
pub mod helper;
pub mod host;
pub mod laws;
pub mod meta;
pub mod parse;
pub mod roundtrip;
pub mod schema;
pub mod serialize;
pub mod value;
