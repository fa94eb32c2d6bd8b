//! The Responses API of OpenAI and servers like it.

pub mod config;
pub mod decoder;
pub mod item_table;
pub mod laws;
pub mod report_laws;
pub mod request_laws;
pub mod response_laws;
pub mod responses;
pub mod retry_laws;
pub mod stream_laws;
pub mod transport;
