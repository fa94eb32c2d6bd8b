//! Threads, their records and the requests made from them.

pub mod events;
pub mod model;
pub mod projection;
pub mod projection_laws;
pub mod record_laws;
pub mod records;
