//! The channel sampler's routing arithmetic.
//!
//! One analog-to-digital input reads a bank of key channels through a
//! 16-way multiplexer: four select lines carry the binary encoding of the
//! channel number, and every full bank of 16 channels uses the next ADC
//! input.  Driving the lines and triggering the conversion is hardware
//! work; the routing computed from the channel number is stated here.

use vstd::prelude::*;

verus! {

/// Where one logical channel is read: the four multiplexer select lines
/// (least significant bit first) and the index of the ADC input that
/// serves its bank.
#[derive(Debug, Clone, Copy, PartialEq, Eq, Structural)]
pub struct MuxRoute {
    pub s0: bool,
    pub s1: bool,
    pub s2: bool,
    pub s3: bool,
    pub adc_input: usize,
}

/// The multiplexer routing of `channel`: the select lines spell the
/// channel number in binary, and channels are grouped 16 to an ADC input.
pub fn mux_route(channel: usize) -> (r: MuxRoute)
    ensures
        r.s0 == (channel % 2 == 1),
        r.s1 == ((channel / 2) % 2 == 1),
        r.s2 == ((channel / 4) % 2 == 1),
        r.s3 == ((channel / 8) % 2 == 1),
        r.adc_input == channel / 16,
{
    let r = MuxRoute {
        s0: channel & 1 == 1,
        s1: (channel >> 1) & 1 == 1,
        s2: (channel >> 2) & 1 == 1,
        s3: (channel >> 3) & 1 == 1,
        adc_input: channel / 16,
    };
    proof {
        assert((channel & 1) == channel % 2) by (bit_vector);
        assert(((channel >> 1) & 1) == (channel / 2) % 2) by (bit_vector);
        assert(((channel >> 2) & 1) == (channel / 4) % 2) by (bit_vector);
        assert(((channel >> 3) & 1) == (channel / 8) % 2) by (bit_vector);
    }
    r
}

} // verus!
