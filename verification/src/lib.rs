//! Driver core for an addressable RGB LED ring (WS2812-family) on a
//! synchronous serial bus.
//!
//! The crate keeps a per-LED color buffer together with a brightness level,
//! converts between packed 24-bit hex values and RGB triples, and expands a
//! byte buffer into the self-clocked pulse-width waveform the LEDs expect.
//! The physical transport (SPI) and the command-line surface are left to the
//! binary around the library: the library only produces the wire frame and
//! reports exactly when an operation must fail.

use vstd::prelude::*;

pub mod codec;
pub mod commands;
pub mod encoder;
pub mod ring;

verus! {

/// The failures a caller can see.
///
/// Every operation reports failure through a `Result`; nothing in the library
/// panics on bad input. `IoError` is never produced by the library itself: it
/// is the variant a transport layer uses when the bus write fails.
#[derive(Debug)]
pub enum LEDRingError {
    /// The transport failed to write the wire frame.
    IoError(String),
    /// A malformed hex string, an out-of-range hex value, or a color triple
    /// that does not have exactly three channels.
    ParseError(String),
    /// A brightness level outside the accepted range.
    ValueError(String),
    /// An LED index at or past the end of the ring.
    IndexError(String),
}

impl LEDRingError {
    /// The stored human-readable description.
    pub open spec fn message_spec(&self) -> Seq<char> {
        match self {
            LEDRingError::IoError(s) => s@,
            LEDRingError::ParseError(s) => s@,
            LEDRingError::ValueError(s) => s@,
            LEDRingError::IndexError(s) => s@,
        }
    }

    /// A human-readable description of the failure, for callers that report it.
    pub fn message(&self) -> (m: String)
        ensures
            m@ == self.message_spec(),
    {
        match self {
            LEDRingError::IoError(s) => s.clone(),
            LEDRingError::ParseError(s) => s.clone(),
            LEDRingError::ValueError(s) => s.clone(),
            LEDRingError::IndexError(s) => s.clone(),
        }
    }
}

} // verus!
