//! Frame-range extraction from an indexed video stream into Y4M.
//!
//! The crate holds the decisions of an extraction tool: which output format a
//! decoded stream maps to, how a requested frame range is read, clamped and
//! named, how the Y4M stream is framed, and how a batch advances from frame
//! to frame. Demuxing and decoding are the caller's: every function here
//! works on plain values. The bytes of the Y4M stream come from the `y4m`
//! crate, whose calls stand in `container`.

pub mod decimal;
pub mod driver;
pub mod container;
pub mod format;
pub mod naming;
pub mod policy;
pub mod progress;
pub mod range;
pub mod request;
pub mod session;
