use axerrno::{AxError, LinuxError};
use linux_syscall_api::errors::SyscallError;
use linux_syscall_api::path::{path_error, solve_path, PathFailure};
use linux_syscall_api::pidfd::{PidFd, O_CLOEXEC};
use linux_syscall_api::time::{wait_timeout, TimeSecs};

#[test]
fn error_codes_are_errno_numbers() {
    assert_eq!(SyscallError::EPERM.code(), 1);
    assert_eq!(SyscallError::ENOENT.code(), 2);
    assert_eq!(SyscallError::EINTR.code(), 4);
    assert_eq!(SyscallError::EBADF.code(), 9);
    assert_eq!(SyscallError::EAGAIN.code(), 11);
    assert_eq!(SyscallError::EFAULT.code(), 14);
    assert_eq!(SyscallError::ENOTDIR.code(), 20);
    assert_eq!(SyscallError::EINVAL.code(), 22);
    assert_eq!(SyscallError::ENOSYS.code(), 38);
    assert_eq!(SyscallError::ETIMEDOUT.code(), 110);
}

#[test]
fn error_codes_agree_with_axerrno() {
    assert_eq!(SyscallError::EPERM.code(), LinuxError::EPERM.code());
    assert_eq!(SyscallError::ENOENT.code(), LinuxError::ENOENT.code());
    assert_eq!(SyscallError::EINTR.code(), LinuxError::EINTR.code());
    assert_eq!(SyscallError::EBADF.code(), LinuxError::EBADF.code());
    assert_eq!(SyscallError::EAGAIN.code(), LinuxError::EAGAIN.code());
    assert_eq!(SyscallError::EFAULT.code(), LinuxError::EFAULT.code());
    assert_eq!(SyscallError::ENOTDIR.code(), LinuxError::ENOTDIR.code());
    assert_eq!(SyscallError::EINVAL.code(), LinuxError::EINVAL.code());
    assert_eq!(SyscallError::ENOSYS.code(), LinuxError::ENOSYS.code());
    assert_eq!(SyscallError::ETIMEDOUT.code(), LinuxError::ETIMEDOUT.code());
}

#[test]
fn path_failures_map_to_errno() {
    assert_eq!(path_error(PathFailure::InvalidInput), SyscallError::EBADF);
    assert_eq!(path_error(PathFailure::NotFound), SyscallError::ENOENT);
    assert_eq!(path_error(PathFailure::NotADirectory), SyscallError::ENOTDIR);
    assert_eq!(path_error(PathFailure::BadAddress), SyscallError::EFAULT);
    assert_eq!(path_error(PathFailure::Other), SyscallError::EPERM);
}

#[test]
fn solve_path_passes_the_path_through() {
    let r: Result<String, SyscallError> = solve_path(Ok(String::from("/tmp/a")));
    assert_eq!(r, Ok(String::from("/tmp/a")));
}

#[test]
fn solve_path_maps_each_error() {
    let f = |e: AxError| solve_path::<String>(Err(e));
    assert_eq!(f(AxError::InvalidInput), Err(SyscallError::EBADF));
    assert_eq!(f(AxError::NotFound), Err(SyscallError::ENOENT));
    assert_eq!(f(AxError::NotADirectory), Err(SyscallError::ENOTDIR));
    assert_eq!(f(AxError::BadAddress), Err(SyscallError::EFAULT));
    assert_eq!(f(AxError::PermissionDenied), Err(SyscallError::EPERM));
    assert_eq!(f(AxError::AlreadyExists), Err(SyscallError::EPERM));
    assert_eq!(f(AxError::Unsupported), Err(SyscallError::EPERM));
    assert_eq!(f(AxError::InvalidData), Err(SyscallError::EPERM));
}

#[test]
fn nanos_of_a_time() {
    assert_eq!(TimeSecs { tv_sec: 0, tv_nsec: 0 }.turn_to_nanos(), 0);
    assert_eq!(TimeSecs { tv_sec: 1, tv_nsec: 1 }.turn_to_nanos(), 1_000_000_001);
    assert_eq!(TimeSecs { tv_sec: 12, tv_nsec: 345 }.turn_to_nanos(), 12_000_000_345);
    assert_eq!(TimeSecs { tv_sec: 0, tv_nsec: 2_500_000_000 }.turn_to_nanos(), 2_500_000_000);
}

#[test]
fn nanos_saturate() {
    assert_eq!(TimeSecs { tv_sec: usize::MAX, tv_nsec: 0 }.turn_to_nanos(), u64::MAX);
    assert_eq!(TimeSecs { tv_sec: 18_446_744_073, tv_nsec: 709_551_615 }.turn_to_nanos(), u64::MAX);
    assert_eq!(TimeSecs { tv_sec: 18_446_744_073, tv_nsec: 709_551_614 }.turn_to_nanos(), u64::MAX - 1);
    assert_eq!(TimeSecs { tv_sec: 18_446_744_073, tv_nsec: 709_551_616 }.turn_to_nanos(), u64::MAX);
}

#[test]
fn relative_timeout_is_taken_as_it_is() {
    let t = TimeSecs { tv_sec: 1, tv_nsec: 500 };
    assert_eq!(wait_timeout(Some(t), false, 0), Some(1_000_000_500));
    assert_eq!(wait_timeout(Some(t), false, 99_000_000_000), Some(1_000_000_500));
}

#[test]
fn absolute_timeout_is_what_is_left() {
    let t = TimeSecs { tv_sec: 10, tv_nsec: 0 };
    assert_eq!(wait_timeout(Some(t), true, 4_000_000_000), Some(6_000_000_000));
    assert_eq!(wait_timeout(Some(t), true, 10_000_000_000), Some(0));
    assert_eq!(wait_timeout(Some(t), true, 10_000_000_001), Some(0));
    assert_eq!(wait_timeout(Some(t), true, u64::MAX), Some(0));
}

#[test]
fn absent_or_zero_timeout_is_no_limit() {
    let z = TimeSecs { tv_sec: 0, tv_nsec: 0 };
    assert_eq!(wait_timeout(None, false, 5), None);
    assert_eq!(wait_timeout(None, true, 5), None);
    assert_eq!(wait_timeout(Some(z), false, 5), None);
    assert_eq!(wait_timeout(Some(z), true, 5), None);
}

#[test]
fn pidfd_keeps_process_and_flags() {
    let fd = PidFd::new(77, 0x802);
    assert_eq!(fd.process(), 77);
    assert_eq!(fd.get_status(), 0x802);
}

#[test]
fn pidfd_is_readable_once_process_is_zombie() {
    let fd = PidFd::new(77, 0);
    assert!(!fd.readable(false));
    assert!(fd.readable(true));
    assert!(!fd.writable());
    assert!(!fd.executable());
}

#[test]
fn pidfd_set_status_replaces_flags() {
    let mut fd = PidFd::new(77, 0x802);
    assert!(fd.set_status(0x1));
    assert_eq!(fd.get_status(), 0x1);
    assert_eq!(fd.process(), 77);
}

#[test]
fn pidfd_close_on_exec_sets_and_clears_one_bit() {
    assert_eq!(O_CLOEXEC, 0o2000000);
    let mut fd = PidFd::new(77, 0x802);
    assert!(fd.set_close_on_exec(true));
    assert_eq!(fd.get_status(), 0x802 | 0x80000);
    assert!(fd.set_close_on_exec(true));
    assert_eq!(fd.get_status(), 0x80802);
    assert!(fd.set_close_on_exec(false));
    assert_eq!(fd.get_status(), 0x802);
    assert!(fd.set_close_on_exec(false));
    assert_eq!(fd.get_status(), 0x802);
}
