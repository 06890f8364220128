use vstd::prelude::*;

verus! {

/// Why a buffer could not be decoded.
#[derive(Debug, Clone, Copy, PartialEq, Eq)]
pub enum Md3Error {
    /// The buffer does not begin with the MD3 signature.
    InvalidMagic,
    /// A read needed bytes that lie outside the buffer.
    UnexpectedEof,
    /// The bytes of a name, up to its first NUL, are not UTF-8.
    InvalidEncoding,
}

} // verus!
