//! The USB device-state bookkeeping behind the bus events the USB stack
//! delivers.
//!
//! The stack calls in on enable, reset, addressing and configuration; the
//! only state the rest of the device reads is the single `configured`
//! flag.  Every event except a successful configuration clears it.  On the
//! device the flag lives in an atomic with relaxed ordering (visibility is
//! the only need under the cooperative scheduler); the state transitions
//! themselves are what is stated here.

use vstd::prelude::*;

verus! {

/// Tracks whether the device is configured, the one flag shared across
/// tasks.
#[derive(Debug, Clone, Copy, PartialEq, Eq, Structural)]
pub struct DeviceHandler {
    pub configured: bool,
}

impl DeviceHandler {
    /// A fresh handler: the device starts unconfigured.
    pub fn new() -> (h: DeviceHandler)
        ensures
            !h.configured,
    {
        DeviceHandler { configured: false }
    }

    /// The stack enabled or disabled the device; either way it is no
    /// longer configured.
    pub fn enabled(&mut self, _enabled: bool)
        ensures
            !final(self).configured,
    {
        self.configured = false;
    }

    /// A bus reset: the device is no longer configured.
    pub fn reset(&mut self)
        ensures
            !final(self).configured,
    {
        self.configured = false;
    }

    /// The device received an address; it is not configured yet.
    pub fn addressed(&mut self, _addr: u8)
        ensures
            !final(self).configured,
    {
        self.configured = false;
    }

    /// The stack reports the configuration state; the flag follows it.
    pub fn configured(&mut self, configured: bool)
        ensures
            final(self).configured == configured,
    {
        self.configured = configured;
    }
}

/// Answers the HID class control requests.  This device keeps no report
/// state of its own: it offers no report to read back, accepts whatever
/// the host sets, and reports no idle rate.
#[derive(Debug, Clone, Copy, PartialEq, Eq, Structural)]
pub struct RequestHandler {}

impl RequestHandler {
    /// A fresh request handler.
    pub fn new() -> (h: RequestHandler)
        ensures
            h == (RequestHandler {  }),
    {
        RequestHandler {}
    }

    /// A GetReport request: there is no stored report to hand back.
    pub fn get_report(&mut self) -> (r: Option<usize>)
        ensures
            r is None,
    {
        Option::None
    }

    /// A SetReport request: always accepted (and ignored).
    pub fn set_report(&mut self) -> (accepted: bool)
        ensures
            accepted,
    {
        true
    }

    /// A GetIdle request: no idle rate is kept.
    pub fn get_idle_ms(&mut self) -> (r: Option<u32>)
        ensures
            r is None,
    {
        Option::None
    }
}

} // verus!
