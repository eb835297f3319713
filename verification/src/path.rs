//! Errors of path resolution, as the system-call layer reports them.

use vstd::prelude::*;
use axerrno::AxError;
use crate::errors::SyscallError;

verus! {

/// `axerrno::AxError`, the error kinds of the kernel's own interfaces, held
/// as an opaque value: nothing is claimed of what is inside.
#[verifier::external_type_specification]
#[verifier::external_body]
pub struct ExAxError(AxError);

/// Why a path could not be resolved, as far as the caller is told.
#[derive(Clone, Copy, Debug, PartialEq, Eq, Structural)]
pub enum PathFailure {
    /// The directory descriptor is no good.
    InvalidInput,
    /// Nothing exists under that path.
    NotFound,
    /// A component of the path is not a directory.
    NotADirectory,
    /// The path string lies in unmapped memory.
    BadAddress,
    /// Anything else.
    Other,
}

/// The failure that an `axerrno::AxError` stands for.
pub uninterp spec fn failure_of(e: AxError) -> PathFailure;

/// Tells apart the variants of `axerrno::AxError` that path resolution
/// distinguishes: `InvalidInput`, `NotFound`, `NotADirectory` and
/// `BadAddress` map to the failure of the same name, every other variant to
/// `Other`. The result depends on the variant alone.
#[verifier::external_body]
fn classify(e: AxError) -> (k: PathFailure)
    ensures
        k == failure_of(e),
{
    match e {
        AxError::InvalidInput => PathFailure::InvalidInput,
        AxError::NotFound => PathFailure::NotFound,
        AxError::NotADirectory => PathFailure::NotADirectory,
        AxError::BadAddress => PathFailure::BadAddress,
        _ => PathFailure::Other,
    }
}

/// The error code for each failure of path resolution.
pub open spec fn path_errno(k: PathFailure) -> SyscallError {
    match k {
        PathFailure::InvalidInput => SyscallError::EBADF,
        PathFailure::NotFound => SyscallError::ENOENT,
        PathFailure::NotADirectory => SyscallError::ENOTDIR,
        PathFailure::BadAddress => SyscallError::EFAULT,
        PathFailure::Other => SyscallError::EPERM,
    }
}

/// The error code that a failed path resolution is reported with. An invalid
/// input can only be a bad directory descriptor, hence `EBADF`.
pub fn path_error(k: PathFailure) -> (e: SyscallError)
    ensures
        e == path_errno(k),
{
    match k {
        PathFailure::InvalidInput => SyscallError::EBADF,
        PathFailure::NotFound => SyscallError::ENOENT,
        PathFailure::NotADirectory => SyscallError::ENOTDIR,
        PathFailure::BadAddress => SyscallError::EFAULT,
        PathFailure::Other => SyscallError::EPERM,
    }
}

/// Turns the outcome of resolving a directory descriptor and a path into the
/// system call's result: the resolved path as it is, or the error code for
/// the failure.
pub fn solve_path<P>(resolved: Result<P, AxError>) -> (r: Result<P, SyscallError>)
    ensures
        resolved matches Ok(p) ==> r == Ok::<P, SyscallError>(p),
        resolved matches Err(e) ==> r == Err::<P, SyscallError>(path_errno(failure_of(e))),
{
    match resolved {
        Ok(path) => Ok(path),
        Err(e) => Err(path_error(classify(e))),
    }
}

} // verus!
