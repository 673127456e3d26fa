//! The RESP2 wire protocol: values, parser and encoder.

pub mod buffer;
pub mod decimal;
pub mod laws;
pub mod resp;
pub mod text;
pub mod types;

pub use types::Frame;
pub use types::RespError;
pub use resp::ParseStep;
pub use resp::RespEncoder;
pub use resp::RespParser;
pub use types::RespValue;
