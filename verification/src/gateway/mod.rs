//! The WebSocket gateway's own logic: its vocabulary, command-line settings, the
//! fields it reads from messages and the scan plans it derives from them.
pub mod model;
pub mod args;
pub mod message;
pub mod scan;
pub mod ops;
pub mod session;
