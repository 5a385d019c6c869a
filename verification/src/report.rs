//! The HID report differ: only reports that changed cross the transport
//! boundary.
//!
//! The scan loop produces one fresh report per tick; sending every one
//! would flood the HID endpoint.  The differ keeps the last report that
//! went out and hands a report on only when it differs by value from the
//! retained one.  The very first report is retained without being sent, so
//! powering up never emits a spurious all-released report.

use vstd::prelude::*;

verus! {

/// A standard 8-byte keyboard report: one modifier byte, one reserved
/// byte, the LED state, and up to six simultaneous keycodes.
#[derive(Debug, Clone, Copy)]
pub struct KeyboardReport {
    pub modifier: u8,
    pub reserved: u8,
    pub leds: u8,
    pub keycodes: [u8; 6],
}

/// Value equality of two reports: every byte agrees.
pub open spec fn spec_report_eq(a: KeyboardReport, b: KeyboardReport) -> bool {
    &&& a.modifier == b.modifier
    &&& a.reserved == b.reserved
    &&& a.leds == b.leds
    &&& a.keycodes@ == b.keycodes@
}

impl PartialEq for KeyboardReport {
    fn eq(&self, other: &KeyboardReport) -> (r: bool) {
        let same = self.modifier == other.modifier && self.reserved == other.reserved
            && self.leds == other.leds && self.keycodes[0] == other.keycodes[0]
            && self.keycodes[1] == other.keycodes[1] && self.keycodes[2] == other.keycodes[2]
            && self.keycodes[3] == other.keycodes[3] && self.keycodes[4] == other.keycodes[4]
            && self.keycodes[5] == other.keycodes[5];
        proof {
            if same {
                assert(self.keycodes@ =~= other.keycodes@);
            }
        }
        same
    }
}

impl Eq for KeyboardReport {

}

impl vstd::std_specs::cmp::PartialEqSpecImpl for KeyboardReport {
    open spec fn obeys_eq_spec() -> bool {
        true
    }

    open spec fn eq_spec(&self, other: &KeyboardReport) -> bool {
        spec_report_eq(*self, *other)
    }
}

impl KeyboardReport {
    /// An all-released report: no modifier, no LED, no keycode.
    pub fn empty() -> (r: KeyboardReport)
        ensures
            r.modifier == 0,
            r.reserved == 0,
            r.leds == 0,
            r.keycodes@ =~= Seq::new(6, |i: int| 0u8),
    {
        KeyboardReport { modifier: 0, reserved: 0, leds: 0, keycodes: [0; 6] }
    }
}

/// What one step of the differ does, as a pair of decisions: the report to
/// send (if any) and the report retained afterwards.
pub open spec fn spec_push(prev: Option<KeyboardReport>, report: KeyboardReport) -> (
    Option<KeyboardReport>,
    Option<KeyboardReport>,
) {
    match prev {
        Option::None => (Option::None, Option::Some(report)),
        Option::Some(p) => if spec_report_eq(p, report) {
            (Option::None, Option::Some(p))
        } else {
            (Option::Some(report), Option::Some(report))
        },
    }
}

/// The differ/dispatcher: retains the last report that went downstream.
#[derive(Debug, Clone, Copy)]
pub struct ReportDiffer {
    pub previous: Option<KeyboardReport>,
}

impl ReportDiffer {
    /// A fresh differ that has sent nothing yet.
    pub fn new() -> (d: ReportDiffer)
        ensures
            d.previous is None,
    {
        ReportDiffer { previous: Option::None }
    }

    /// Feeds this tick's report through the differ.  Returns the report
    /// exactly when it must go downstream: when a retained report exists
    /// and differs from it by value.  The first report is retained
    /// silently.
    pub fn push(&mut self, report: KeyboardReport) -> (send: Option<KeyboardReport>)
        ensures
            ((send, final(self).previous) == spec_push(old(self).previous, report)),
    {
        match self.previous {
            Option::None => {
                self.previous = Option::Some(report);
                Option::None
            }
            Option::Some(p) => {
                if p == report {
                    Option::None
                } else {
                    self.previous = Option::Some(report);
                    Option::Some(report)
                }
            }
        }
    }
}

/// The number of sends the differ makes for two reports in succession.
pub open spec fn spec_send_count(
    prev: Option<KeyboardReport>,
    r1: KeyboardReport,
    r2: KeyboardReport,
) -> int {
    let step1 = spec_push(prev, r1);
    let step2 = spec_push(step1.1, r2);
    (if step1.0 is Some {
        1int
    } else {
        0int
    }) + (if step2.0 is Some {
        1int
    } else {
        0int
    })
}

/// Report diffing: two structurally equal reports in succession cause at
/// most one send, whatever was retained before; two reports that each
/// differ from what precedes them cause exactly two sends.
pub proof fn lemma_report_diffing(
    prev: Option<KeyboardReport>,
    r1: KeyboardReport,
    r2: KeyboardReport,
)
    ensures
        spec_report_eq(r1, r2) ==> spec_send_count(prev, r1, r2) <= 1,
        (prev matches Some(p) && !spec_report_eq(p, r1) && !spec_report_eq(r1, r2))
            ==> spec_send_count(prev, r1, r2) == 2,
{
}

} // verus!
