//! Futex keys: which futex a user address names.

use vstd::prelude::*;

verus! {

/// Flag bit: the futex may be shared between address spaces.
pub const FLAGS_SHARED: u32 = 0x10;

/// Flag bit: the timeout is measured on the real-time clock.
pub const FLAGS_CLOCKRT: u32 = 0x20;

/// Identifies one futex: a user address within one address space.
///
/// Two operations target the same futex exactly when their keys are equal.
#[derive(Clone, Copy, Debug, PartialEq, Eq, Structural)]
pub struct FutexKey {
    /// The address space that the address belongs to.
    pub space: u64,
    /// The user address of the futex word.
    pub addr: usize,
}

/// A resolved key, with a note on whether sharing was asked for and dropped.
#[derive(Clone, Copy, Debug, PartialEq, Eq, Structural)]
pub struct KeyResolution {
    /// The key to queue and wake under.
    pub key: FutexKey,
    /// The caller asked for a shared futex and got a private one; worth a log line.
    pub degraded: bool,
}

/// Whether `flags` asks for a futex shared between address spaces.
pub open spec fn wants_shared(flags: u32) -> bool {
    flags & FLAGS_SHARED != 0
}

/// Resolves `uaddr` in address space `space` to a key.
///
/// A shared futex is accepted but resolves exactly like a private one, so
/// waiters of different address spaces are never linked; `degraded` reports it.
/// No page is validated here.
pub fn futex_get_key(uaddr: usize, flags: u32, space: u64) -> (r: KeyResolution)
    ensures
        r.key == (FutexKey { space, addr: uaddr }),
        r.degraded == wants_shared(flags),
{
    KeyResolution { key: FutexKey { space, addr: uaddr }, degraded: (flags & FLAGS_SHARED) != 0 }
}

/// Keys are equal exactly when address space and address agree, whatever the
/// sharing flags were.
pub proof fn lemma_same_futex_iff_same_key(
    uaddr1: usize,
    space1: u64,
    uaddr2: usize,
    space2: u64,
)
    ensures
        (FutexKey { space: space1, addr: uaddr1 } == FutexKey { space: space2, addr: uaddr2 }) <==> (
        space1 == space2 && uaddr1 == uaddr2),
{
}

} // verus!
