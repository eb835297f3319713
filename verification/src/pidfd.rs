//! The state of a pidfd: a file descriptor that stands for a process.

use vstd::prelude::*;

verus! {

/// Open-flag bit: close the descriptor on exec.
pub const O_CLOEXEC: u32 = 0x80000;

/// A descriptor for one process. It cannot be read, written or sought; it
/// polls as readable once the process is a zombie.
pub struct PidFd {
    flags: u32,
    process: u64,
}

impl PidFd {
    /// The open flags of the descriptor.
    pub closed spec fn status(&self) -> u32 {
        self.flags
    }

    /// The id of the process that the descriptor stands for.
    pub closed spec fn target(&self) -> u64 {
        self.process
    }

    /// A descriptor for `process`, opened with `flags`.
    pub fn new(process: u64, flags: u32) -> (r: Self)
        ensures
            r.status() == flags,
            r.target() == process,
    {
        PidFd { flags, process }
    }

    /// The id of the process that the descriptor stands for.
    pub fn process(&self) -> (r: u64)
        ensures
            r == self.target(),
    {
        self.process
    }

    /// Readable means that the process has ended: `zombie` is its state now.
    pub fn readable(&self, zombie: bool) -> (r: bool)
        ensures
            r == zombie,
    {
        zombie
    }

    /// Never writable.
    pub fn writable(&self) -> (r: bool)
        ensures
            !r,
    {
        false
    }

    /// Never executable.
    pub fn executable(&self) -> (r: bool)
        ensures
            !r,
    {
        false
    }

    /// The open flags.
    pub fn get_status(&self) -> (r: u32)
        ensures
            r == self.status(),
    {
        self.flags
    }

    /// Replaces the open flags; always succeeds.
    pub fn set_status(&mut self, flags: u32) -> (r: bool)
        ensures
            r,
            final(self).status() == flags,
            final(self).target() == old(self).target(),
    {
        self.flags = flags;
        true
    }

    /// Sets or clears the close-on-exec bit and leaves the other flags;
    /// always succeeds.
    pub fn set_close_on_exec(&mut self, is_set: bool) -> (r: bool)
        ensures
            r,
            is_set ==> final(self).status() == old(self).status() | O_CLOEXEC,
            !is_set ==> final(self).status() == old(self).status() & !O_CLOEXEC,
            final(self).target() == old(self).target(),
    {
        if is_set {
            self.flags = self.flags | O_CLOEXEC;
        } else {
            self.flags = self.flags & !O_CLOEXEC;
        }
        true
    }
}

} // verus!
