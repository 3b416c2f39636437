//! An in-process key-value cache whose entries expire after a time-to-live.
//!
//! The verified core is [`Cache`]: a table owned by one engine that
//! applies commands in order, evicts expired entries when they are read, and
//! sweeps the table whenever the clock passes its recorded expiry watermark.
//! Times are milliseconds on a monotonic clock chosen by the caller.

mod cache;
mod error;
mod table;
pub mod laws;

pub use cache::{
    after_command, after_put, after_read, bounded_by, deadline, earliest, read_error, swept,
    watermark_after_command, watermark_after_read, Cache, Command,
};
pub use error::{Error, settle_reply, settled};
pub use table::Entry;
