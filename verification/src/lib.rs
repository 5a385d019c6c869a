//! Core logic of an analog-switch keypad firmware, verified.
//!
//! The crate covers the parts of the device with real algorithmic content:
//! the analog sampling / debounce pipeline that turns raw readings into
//! stable key events, the typed wire protocol with its fixed-size binary
//! encoding, the broadcast message bus that fans frames between the two USB
//! transports without echo loops, and the HID report differ that forwards
//! only changed reports.  Hardware bring-up, USB descriptor plumbing and the
//! transport endpoints themselves are external collaborators; the functions
//! here take and return plain values at that boundary.

pub mod bus;
pub mod debounce;
pub mod handlers;
pub mod message;
pub mod report;
pub mod sampler;
pub mod usb_config;
