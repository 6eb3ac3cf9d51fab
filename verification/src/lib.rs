//! Change data capture from PostgreSQL logical replication: decoding of
//! `pgoutput` column values, the wire frames and commands of the replication
//! protocol, the schema cache, and the batching state machine.

pub mod buffer;
pub mod bytea;
pub mod float_text;
pub mod message;
pub mod model;
pub mod money;
pub mod numeric_text;
pub mod pg_array;
pub mod pipeline;
pub mod schema_cache;
pub mod source;
pub mod text;
pub mod timestamp;
pub mod types;
pub mod wire;
