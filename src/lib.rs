//! Typed encoders and decoders between application records and the binary
//! parameter format of a PostgreSQL server, together with the decisions that
//! bring a database and its schema up from nothing.

pub mod bootstrap;
pub mod bytes;
pub mod email;
pub mod error;
pub mod id;
pub mod json;
pub mod number;
pub mod schema;
pub mod store;
pub mod value;

