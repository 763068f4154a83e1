//! Errors surfaced by the tunnel and the framing codec.

use vstd::prelude::*;

verus! {

/// Error kinds of the tunnel and its framing codec.
#[derive(Debug, Clone, Copy, PartialEq, Eq, Structural)]
pub enum Error {
    /// A PKCS#1 key could not be encoded or decoded.
    Pkcs1,
    /// An RSA block could not be encrypted or decrypted.
    Rsa,
    /// The underlying stream failed, or a frame was malformed.
    Io,
    /// The peer's public key has not been received yet.
    NotReady,
    /// The channel has been lost due to an earlier transmission error.
    SocketDied,
    /// The key exchange timed out.
    Timeout,
}

impl Error {
    /// A short description of the error, for operator-facing output.
    pub fn message(&self) -> (r: &'static str)
        ensures
            *self == Error::Pkcs1 ==> r@ == "Cannot encode or decode a PKCS#1 key."@,
            *self == Error::Rsa ==> r@ == "Cannot encrypt or decrypt an RSA block."@,
            *self == Error::Io ==> r@ == "Transmission failed or a frame was malformed."@,
            *self == Error::NotReady ==> r@
                == "Public key not received yet. Consider awaiting the `handshake`."@,
            *self == Error::SocketDied ==> r@
                == "Transmission interrupted due to an error. Consider reconnecting."@,
            *self == Error::Timeout ==> r@ == "Key exchange timed out. Please try reconnecting."@,
    {
        match self {
            Error::Pkcs1 => "Cannot encode or decode a PKCS#1 key.",
            Error::Rsa => "Cannot encrypt or decrypt an RSA block.",
            Error::Io => "Transmission failed or a frame was malformed.",
            Error::NotReady => "Public key not received yet. Consider awaiting the `handshake`.",
            Error::SocketDied => "Transmission interrupted due to an error. Consider reconnecting.",
            Error::Timeout => "Key exchange timed out. Please try reconnecting.",
        }
    }
}

} // verus!
