//! Why loading an archive failed.

use vstd::prelude::*;

verus! {

#[verifier::external_type_specification]
#[verifier::external_body]
pub struct ExIoError(std::io::Error);

/// Every way in which reading an archive's directory can fail; a failure
/// aborts the whole load.
#[derive(Debug)]
pub enum WadDecodeError {
    FailedToOpenFile(std::io::Error),
    FailedToReadHeader(std::io::Error),
    CouldNotDecodeHeader,
    FailedToReadDirectory(std::io::Error),
    CouldNotDecodeDirectory,
}

/// Relies on `std::io::Error::from(ErrorKind::UnexpectedEof)`: the error that
/// `read_exact` reports when the input ends before the buffer is full.
#[verifier::external_body]
pub(crate) fn unexpected_eof() -> (r: std::io::Error) {
    std::io::Error::from(std::io::ErrorKind::UnexpectedEof)
}

} // verus!
