//! Sends a byte stream to a serial device, raw or framed by XMODEM,
//! while reporting progress.
//!
//! The library holds the decisions of one invocation: which link settings
//! to request and whether the device took them, which byte source to read,
//! how a raw copy advances, and which progress events a framed transfer
//! produces. The device, the files and the protocol engine are driven by
//! the caller, who hands back what happened as events.
pub mod config;
pub mod parse;
pub mod progress;
pub mod session;
