//! A driver shell for the TMP102 temperature sensor: the pure decoding of
//! its two-byte reading is verified here; the bus transfer and the final
//! scaling to degrees happen at the caller's edge.

use vstd::prelude::*;

verus! {

/// The 12-bit raw reading encoded in the sensor's two data bytes: the
/// first byte holds the high eight bits, the upper half of the second
/// byte the low four.
pub fn raw_reading(msb: u8, lsb: u8) -> (r: i16)
    ensures
        r == 16 * (msb as int) + (lsb as int) / 16,
        0 <= r < 4096,
{
    let m: u16 = (msb as u16) << 4;
    let l: u16 = (lsb as u16) >> 4;
    let combined: u16 = m | l;
    proof {
        assert((((msb as u16) << 4) | ((lsb as u16) >> 4)) == 16 * (msb as u16) + (lsb as u16)
            / 16) by (bit_vector);
        assert(16 * (msb as u16) + (lsb as u16) / 16 < 4096) by (bit_vector);
    }
    combined as i16
}

/// A generic driver for a TMP102 temperature sensor, owning whatever bus
/// handle the caller supplies.
pub struct Tmp102<I2C> {
    pub i2c: I2C,
}

impl<I2C> Tmp102<I2C> {
    /// Creates a new driver around the given bus handle.
    pub fn new(i2c: I2C) -> (r: Tmp102<I2C>)
        ensures
            r == (Tmp102 { i2c }),
    {
        Tmp102 { i2c }
    }

    /// Hands the bus handle back, for the caller to perform a transfer.
    pub fn release(self) -> (r: I2C)
        ensures
            r == self.i2c,
    {
        self.i2c
    }
}

} // verus!
