//! The two ways an operation on the sensor can fail.

use vstd::prelude::*;
use vstd::std_specs::convert::FromSpecImpl;
use crate::response::ResponseError;

verus! {

/// Failure of an operation on the sensor.
///
/// `Interface` carries a fault of the bus transaction itself, exactly as the
/// bus reported it. `Response` carries a fault the chip reported through its
/// response register after it had accepted the transaction.
#[derive(Debug, Clone, Copy)]
pub enum Error<T> {
    Interface(T),
    Response(ResponseError),
}

impl<T> From<T> for Error<T> {
    fn from(e: T) -> (error: Self) {
        Self::Interface(e)
    }
}

impl<T> FromSpecImpl<T> for Error<T> {
    open spec fn obeys_from_spec() -> bool {
        true
    }

    open spec fn from_spec(e: T) -> Self {
        Error::Interface(e)
    }
}

} // verus!
