//! Reading and writing without blocking: what one attempt amounts to.
//!
//! The attempt itself (a `read` or `write` call on a descriptor in
//! non-blocking mode) is made by the caller. What it came to is told here:
//! progress by some bytes, the end of the stream, a wait, or a failure.
use vstd::prelude::*;

verus! {

#[verifier::external_type_specification]
#[verifier::external_body]
pub struct ExIoError(std::io::Error);

/// The error code of an I/O error (`EIO`). The master side of a
/// pseudo-terminal answers with it once the child has gone.
pub const EIO: i32 = 5;

/// Whether an error says that the call would have had to wait.
pub uninterp spec fn would_block(error: std::io::Error) -> bool;

/// The error code of the operating system that an error carries, where it
/// carries one.
pub uninterp spec fn os_code(error: std::io::Error) -> Option<i32>;

/// Whether an error says that the call would have had to wait.
///
/// Trusted: this is `std::io::Error::kind`, compared with
/// `ErrorKind::WouldBlock`.
#[verifier::external_body]
fn is_would_block(error: &std::io::Error) -> (blocked: bool)
    ensures
        blocked == would_block(*error),
{
    error.kind() == std::io::ErrorKind::WouldBlock
}

/// `Error::raw_os_error` gives the error code of the operating system for
/// an error that came from it, and nothing for any other error.
pub assume_specification[ std::io::Error::raw_os_error ](error: &std::io::Error) -> (code:
    Option<i32>)
    ensures
        code == os_code(*error),
;

/// What an attempt amounts to.
///
/// `Ok(Some(n))` with `n > 0` is progress by `n` bytes and `Ok(Some(0))` the
/// end of the stream. `Ok(None)` says that nothing can be done before the
/// descriptor is ready again. An attempt that would block is a wait, one
/// that failed with `EIO` is the end of the stream, and any other failure
/// stays the failure it is.
pub open spec fn progress(outcome: Result<usize, std::io::Error>) -> Result<
    Option<usize>,
    std::io::Error,
> {
    match outcome {
        Ok(n) => Ok(Some(n)),
        Err(error) => if would_block(error) {
            Ok(None)
        } else if os_code(error) == Some(EIO) {
            Ok(Some(0usize))
        } else {
            Err(error)
        },
    }
}

fn classify(outcome: Result<usize, std::io::Error>) -> (result: Result<
    Option<usize>,
    std::io::Error,
>)
    ensures
        result == progress(outcome),
{
    match outcome {
        Ok(n) => Ok(Some(n)),
        Err(error) => {
            if is_would_block(&error) {
                Ok(None)
            } else {
                match error.raw_os_error() {
                    Some(code) => if code == EIO {
                        Ok(Some(0))
                    } else {
                        Err(error)
                    },
                    None => Err(error),
                }
            }
        },
    }
}

/// What an attempt to read amounts to.
pub fn read(outcome: Result<usize, std::io::Error>) -> (result: Result<
    Option<usize>,
    std::io::Error,
>)
    ensures
        result == progress(outcome),
{
    classify(outcome)
}

/// What an attempt to write amounts to.
pub fn write(outcome: Result<usize, std::io::Error>) -> (result: Result<
    Option<usize>,
    std::io::Error,
>)
    ensures
        result == progress(outcome),
{
    classify(outcome)
}

} // verus!
