//! A small workspace indexing and execution-log pipeline.
//!
//! The crate models three durable artifacts and the values written to them:
//! a plain-text timing log (append-only), a structured execution-record log
//! (append-only), and a workspace index manifest (replaced wholesale on every
//! run).  All record construction, formatting and serialization logic is
//! verified; callers perform the actual file reads and writes with the exact
//! byte strings these functions return.

pub mod indexer;
pub mod jsontext;
pub mod logger;
pub mod model;
pub mod numtext;
pub mod provenance;
