//! The parameter set of the FM voice, in fixed point: frequencies in
//! millihertz, the modulation index and the amplitude in thousandths.
use vstd::prelude::*;
use crate::MILLI;

verus! {

/// The pitch that preset frequencies are written for, in millihertz (440 Hz).
pub const REFERENCE_PITCH: u32 = 440_000;

#[derive(Clone, Copy, Debug, PartialEq, Eq, Structural)]
pub struct FMParams {
    /// Carrier frequency in millihertz.
    pub carrier_freq: u32,
    /// Modulator frequency in millihertz.
    pub modulator_freq: u32,
    /// Modulation depth in thousandths.
    pub modulation_index: u32,
    /// Output amplitude in thousandths, at most `MILLI`.
    pub amplitude: u32,
}

/// `freq` moved from the reference pitch to `pitch`, rounded down and held
/// at the largest `u32`.
pub open spec fn transpose(freq: int, pitch: int) -> int {
    let f = (freq * pitch) / (REFERENCE_PITCH as int);
    if f <= u32::MAX {
        f
    } else {
        u32::MAX as int
    }
}

impl FMParams {
    pub open spec fn wf(&self) -> bool {
        self.amplitude <= MILLI
    }

    /// The parameters for a note of `pitch` millihertz: carrier and modulator
    /// frequencies are scaled by `pitch / REFERENCE_PITCH`; depth and
    /// amplitude stay.
    pub open spec fn at_pitch(self, pitch: int) -> FMParams {
        FMParams {
            carrier_freq: transpose(self.carrier_freq as int, pitch) as u32,
            modulator_freq: transpose(self.modulator_freq as int, pitch) as u32,
            ..self
        }
    }

    pub fn scaled_to(&self, pitch: u32) -> (r: FMParams)
        ensures
            r == self.at_pitch(pitch as int),
            self.wf() ==> r.wf(),
    {
        FMParams {
            carrier_freq: transpose_freq(self.carrier_freq, pitch),
            modulator_freq: transpose_freq(self.modulator_freq, pitch),
            modulation_index: self.modulation_index,
            amplitude: self.amplitude,
        }
    }
}

fn transpose_freq(freq: u32, pitch: u32) -> (r: u32)
    ensures
        r == transpose(freq as int, pitch as int),
{
    proof {
        crate::envelope::lemma_mul_at_most(freq as int, pitch as int, u32::MAX as int, u32::MAX as int);
    }
    let f = freq as u128 * pitch as u128 / REFERENCE_PITCH as u128;
    if f <= u32::MAX as u128 {
        f as u32
    } else {
        u32::MAX
    }
}

impl Default for FMParams {
    /// 440 Hz carrier, 220 Hz modulator, depth 2, amplitude 0.3.
    fn default() -> (r: FMParams)
        ensures
            r == (FMParams {
                carrier_freq: 440_000,
                modulator_freq: 220_000,
                modulation_index: 2000,
                amplitude: 300,
            }),
    {
        FMParams { carrier_freq: 440_000, modulator_freq: 220_000, modulation_index: 2000, amplitude: 300 }
    }
}

} // verus!
