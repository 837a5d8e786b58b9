//! A file server's request-handling engine, stated over plain values.

pub mod ops;
pub mod text;
pub mod util;
