//! The errors of the driver.

use vstd::prelude::*;

verus! {

/// `Error` represents communication errors.
///
/// `TXErr` and `RXErr` are the error types of the write side and of the read
/// side of the serial line.
#[derive(Debug)]
pub enum Error<TXErr, RXErr> {
    /// `Protocol` indicates that what came back over the serial line does not
    /// answer what was asked of it.
    Protocol,
    /// `Request` indicates that the caller provided invalid arguments that
    /// could not be checked at compile time. Nothing has been queued for the
    /// line when this is returned.
    Request,
    /// `Write` indicates that the write side of the serial line returned an
    /// error. The data is that error, unchanged.
    Write(TXErr),
    /// `Read` indicates that the read side of the serial line returned an
    /// error. The data is that error, unchanged.
    Read(RXErr),
}

impl<TXErr, RXErr> Error<TXErr, RXErr> {
    /// Wraps an error of the write side.
    pub fn tx(got: TXErr) -> (err: Self)
        ensures
            err == Error::<TXErr, RXErr>::Write(got),
    {
        Error::Write(got)
    }

    /// Wraps an error of the read side.
    pub fn rx(got: RXErr) -> (err: Self)
        ensures
            err == Error::<TXErr, RXErr>::Read(got),
    {
        Error::Read(got)
    }
}

} // verus!
