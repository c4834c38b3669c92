//! The errors that the library reports.

use vstd::prelude::*;

verus! {

/// What went wrong in a call.
#[derive(Clone, Copy, Debug, PartialEq, Eq, Structural)]
pub enum Error {
    /// There is no more work to do for now.
    Done,
    /// The provided buffer is too short.
    BufferTooShort,
    /// A cryptographic operation failed.
    CryptoFail,
    /// The TLS handshake failed.
    TlsFail,
    /// Data was written past the end of a finished stream.
    FinalSize,
}

} // verus!
