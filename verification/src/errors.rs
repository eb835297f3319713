//! Error codes handed back to user space.

use vstd::prelude::*;

verus! {

/// The failures that the system-call layer reports, named after their errno.
#[derive(Clone, Copy, Debug, PartialEq, Eq, Structural)]
pub enum SyscallError {
    /// Operation not permitted.
    EPERM,
    /// No such file or directory.
    ENOENT,
    /// Interrupted while blocked.
    EINTR,
    /// Bad file descriptor.
    EBADF,
    /// The value changed under the caller: sample again and retry.
    EAGAIN,
    /// Bad address.
    EFAULT,
    /// Not a directory.
    ENOTDIR,
    /// Invalid argument.
    EINVAL,
    /// Command or flag not implemented.
    ENOSYS,
    /// The deadline passed before any wake.
    ETIMEDOUT,
}

/// What a system call returns: a success value or an error code.
pub type SyscallResult = Result<isize, SyscallError>;

impl SyscallError {
    /// The errno number of this error.
    pub open spec fn spec_code(self) -> int {
        match self {
            SyscallError::EPERM => 1,
            SyscallError::ENOENT => 2,
            SyscallError::EINTR => 4,
            SyscallError::EBADF => 9,
            SyscallError::EAGAIN => 11,
            SyscallError::EFAULT => 14,
            SyscallError::ENOTDIR => 20,
            SyscallError::EINVAL => 22,
            SyscallError::ENOSYS => 38,
            SyscallError::ETIMEDOUT => 110,
        }
    }

    /// The errno number of this error.
    pub fn code(self) -> (c: i32)
        ensures
            c == self.spec_code(),
    {
        match self {
            SyscallError::EPERM => 1,
            SyscallError::ENOENT => 2,
            SyscallError::EINTR => 4,
            SyscallError::EBADF => 9,
            SyscallError::EAGAIN => 11,
            SyscallError::EFAULT => 14,
            SyscallError::ENOTDIR => 20,
            SyscallError::EINVAL => 22,
            SyscallError::ENOSYS => 38,
            SyscallError::ETIMEDOUT => 110,
        }
    }
}

} // verus!
