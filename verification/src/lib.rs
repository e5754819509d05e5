//! The decision logic of a GPS tracking app: how durations and board answers
//! read, which page the menu leads to, which board tracking follows, what the
//! recorded tracks and the relayed nodes keep, and what the BLE link does
//! with each press and each event.
//!
//! Everything that draws, that touches the radio or the file system, or that
//! works in floating point lives in the app crate around this one.

pub mod board;
pub mod clock;
pub mod durations;
pub mod feedback;
pub mod float32;
pub mod fmt;
pub mod link;
pub mod nav;
pub mod parse;
pub mod paths;
pub mod points;
pub mod prose;
pub mod radio_edit;
pub mod relays;
pub mod tracking;
