//! Cursor-based decoding of primitive values from a borrowed byte buffer.

pub mod cursor;
pub mod decimal;
pub mod le;
pub mod reader;
pub mod reader_error;
pub mod trusted;
