//! Error taxonomy of the driver.

use vstd::prelude::*;

verus! {

/// All possible errors emitted by the driver.
///
/// `E` is the fault type of the transport that carries the chip's
/// serial protocol; a transport fault is passed through verbatim.
#[derive(Debug, Clone, Copy, PartialEq, Eq)]
pub enum Error<E> {
    /// Underlying transport fault, passed through unchanged.
    Spi(E),
    /// An out-of-range parameter value was passed.
    Value,
    /// An address or range lies beyond the chip's capacity.
    OutOfBounds,
    /// An erase target is not aligned to its granularity.
    NotAligned,
    /// The chip reported work-in-progress when polled.
    Busy,
    /// A mutating operation was attempted while the handle's write
    /// permission was not enabled.
    Permission,
}

} // verus!
