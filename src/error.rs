use vstd::prelude::*;

verus! {

/// Why no random bytes could be produced.
///
/// Every variant means "randomness source unavailable" to the caller; the
/// variant keeps the cause for diagnostics.
#[derive(Clone, Copy, Debug, PartialEq, Eq, Structural)]
pub enum Error {
    /// The host looks like a browser, but `self.crypto` is undefined.
    CryptoUndefined,
    /// `crypto` exists, but `crypto.getRandomValues` is undefined.
    GetRandomValuesUndefined,
    /// The host's fill primitive raised an error.
    FillFailed,
}

impl Error {
    /// Every cause is reported as the one kind "source unavailable".
    pub fn is_unavailable(&self) -> (r: bool)
        ensures
            r,
    {
        true
    }

    /// A human-readable description of the cause.
    pub fn message(&self) -> (r: &'static str)
        ensures
            *self == Error::CryptoUndefined ==> r@ == "self.crypto is undefined"@,
            *self == Error::GetRandomValuesUndefined ==> r@
                == "crypto.getRandomValues is undefined"@,
            *self == Error::FillFailed ==> r@ == "the host's random fill primitive failed"@,
    {
        match self {
            Error::CryptoUndefined => "self.crypto is undefined",
            Error::GetRandomValuesUndefined => "crypto.getRandomValues is undefined",
            Error::FillFailed => "the host's random fill primitive failed",
        }
    }
}

} // verus!
