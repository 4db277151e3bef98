//! Temperature scaling: the stored parameter.  The division itself is
//! floating-point work and lives with the numeric side.

use vstd::prelude::*;

verus! {

/// Scales all logits by dividing by a temperature value; values at or
/// below zero are clamped to a small positive one before the division.
pub struct TemperatureSampler {
    /// The temperature, as IEEE-32 bits.
    pub temperature_bits: u32,
}

impl TemperatureSampler {
    /// A temperature scaler with the given temperature bits.
    pub fn new(temperature_bits: u32) -> (r: TemperatureSampler)
        ensures
            r.temperature_bits == temperature_bits,
    {
        TemperatureSampler { temperature_bits }
    }
}

} // verus!
