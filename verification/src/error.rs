//! Errors that PMBus operations report: a bus-level failure carried through
//! from the transport, or a local conversion failure.

use vstd::prelude::*;

verus! {

/// Errors that can occur during PMBus operations, generic over the
/// transport's own error type.
#[derive(Debug)]
pub enum PmbusError<E> {
    /// Underlying bus (I2C/SMBus) error.
    Bus(E),
    /// A value could not be encoded into the PMBus format.
    EncodingError,
    /// The device response had an unexpected length.
    InvalidResponseLength,
}

impl<E> From<E> for PmbusError<E> {
    /// Wrap a transport error.
    fn from(e: E) -> (r: Self)
        ensures
            r == PmbusError::<E>::Bus(e),
    {
        PmbusError::Bus(e)
    }
}

impl<E> vstd::std_specs::convert::FromSpecImpl<E> for PmbusError<E> {
    open spec fn obeys_from_spec() -> bool {
        true
    }

    open spec fn from_spec(e: E) -> Self {
        PmbusError::Bus(e)
    }
}

} // verus!
