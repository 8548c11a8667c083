use vstd::prelude::*;

use crate::aictable::Aictable;

verus! {

/// The ways an operation on a [`Factory`](crate::Factory) can fail.
///
/// Every error is non-fatal and locally recoverable: the factory's state is
/// left exactly as it was before the failing call, except that a failing
/// allocation may move the cursor as documented on
/// [`Factory::next`](crate::Factory::next).
#[derive(Debug)]
pub enum Error<T: Aictable> {
    /// A manual reservation named an ID that is already issued.
    AlreadyExist(T),
    /// A non-looping allocation ran into the domain's maximum value while
    /// searching for a free ID.
    MaxReached,
    /// A looping allocation cycled through the whole domain without finding
    /// a free ID: every value is currently issued.
    OutOfSpace,
}

impl<T: Aictable> Error<T> {
    /// A short human-readable description of the error.
    pub fn message(&self) -> (r: &'static str)
        ensures
            r@ == (match self {
                Error::AlreadyExist(_) => "Id already exists"@,
                Error::MaxReached => "Maximum reached"@,
                Error::OutOfSpace => "No more id left"@,
            }),
    {
        match self {
            Error::AlreadyExist(_) => "Id already exists",
            Error::MaxReached => "Maximum reached",
            Error::OutOfSpace => "No more id left",
        }
    }
}

} // verus!
