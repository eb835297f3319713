//! The system-call entry points: `futex`, `set_robust_list`, `get_robust_list`.
//!
//! Each takes the six argument words of the call, the state it acts on, and
//! what the kernel observed on the caller's behalf.

use vstd::prelude::*;
use crate::errors::{SyscallError, SyscallResult};
use crate::key::{futex_get_key, FutexKey, FLAGS_CLOCKRT, FLAGS_SHARED};
use crate::model::{
    left_by, queue_at, requeue_moved, requeue_table, set_queue, wait_table, woken_by, Waiter,
};
use crate::queue::WaitQueues;
use crate::robust::{robust_list_len, robust_list_size, FutexRobustList, RobustListRegistry};
use crate::time::{relative_timeout, wait_timeout, TimeSecs};
use crate::waitwake::{
    futex_requeue, futex_wait, futex_wake, futex_wake_bitset, FUTEX_BITSET_MATCH_ANY,
};

verus! {

/// Command: wait while the word holds the expected value.
pub const FUTEX_WAIT: u32 = 0;

/// Command: wake waiters.
pub const FUTEX_WAKE: u32 = 1;

/// Command: wake some waiters and move others to a second futex.
pub const FUTEX_REQUEUE: u32 = 3;

/// Command: requeue with comparison. Not implemented.
pub const FUTEX_CMP_REQUEUE: u32 = 4;

/// Command: wake with an operation on a second word. Not implemented.
pub const FUTEX_WAKE_OP: u32 = 5;

/// Command: wait with a bitset and an absolute deadline.
pub const FUTEX_WAIT_BITSET: u32 = 9;

/// Command: wake the waiters that a bitset selects.
pub const FUTEX_WAKE_BITSET: u32 = 10;

/// Bit of the operation word: the futex is private to the address space.
pub const FUTEX_PRIVATE_FLAG: u32 = 128;

/// Bit of the operation word: the deadline is on the real-time clock.
pub const FUTEX_CLOCK_REALTIME: u32 = 256;

/// The bits of the operation word that select the command.
pub const FUTEX_CMD_MASK: u32 = 0xffff_fe7f;

/// The low 32 bits of an argument word.
pub open spec fn low32(x: usize) -> u32 {
    (x & 0xffff_ffff) as u32
}

/// The low 32 bits of an argument word.
pub fn low_word(x: usize) -> (r: u32)
    ensures
        r == low32(x),
{
    let m: usize = x & 0xffff_ffff;
    assert(x & 0xffff_ffff <= 0xffff_ffff) by (bit_vector);
    m as u32
}

/// The operation word leaves the private bit clear: a shared futex.
pub open spec fn op_shared(op: u32) -> bool {
    op & FUTEX_PRIVATE_FLAG == 0
}

/// The operation word asks for the real-time clock.
pub open spec fn op_realtime(op: u32) -> bool {
    op & FUTEX_CLOCK_REALTIME != 0
}

/// The flags that an operation word carries.
pub open spec fn op_flags(op: u32) -> u32 {
    if op_shared(op) {
        if op_realtime(op) {
            0x30u32
        } else {
            0x10u32
        }
    } else {
        if op_realtime(op) {
            0x20u32
        } else {
            0u32
        }
    }
}

/// The flags of an operation word: `FLAGS_SHARED` unless the private bit is
/// set, `FLAGS_CLOCKRT` if the real-time bit is.
pub fn futex_op_to_flag(op: u32) -> (flags: u32)
    ensures
        flags == op_flags(op),
        (flags & FLAGS_SHARED != 0) == op_shared(op),
        (flags & FLAGS_CLOCKRT != 0) == op_realtime(op),
{
    let shared = (op & FUTEX_PRIVATE_FLAG) == 0;
    let realtime = (op & FUTEX_CLOCK_REALTIME) != 0;
    assert(0x30u32 & 0x10u32 != 0 && 0x30u32 & 0x20u32 != 0 && 0x10u32 & 0x10u32 != 0 && 0x10u32
        & 0x20u32 == 0 && 0x20u32 & 0x10u32 == 0 && 0x20u32 & 0x20u32 != 0 && 0u32 & 0x10u32 == 0
        && 0u32 & 0x20u32 == 0) by (bit_vector);
    if shared {
        if realtime {
            0x30
        } else {
            0x10
        }
    } else {
        if realtime {
            0x20
        } else {
            0
        }
    }
}

/// The commands that are carried out.
#[derive(Clone, Copy, Debug, PartialEq, Eq, Structural)]
pub enum FutexCmd {
    /// Wait; the timeout is relative.
    Wait,
    /// Wait with a bitset; the timeout is an absolute deadline.
    WaitBitset,
    /// Wake, whatever the bitset.
    Wake,
    /// Wake the waiters that a bitset selects.
    WakeBitset,
    /// Wake, then move waiters to a second futex.
    Requeue,
}

/// A futex call, decoded from its six argument words.
#[derive(Clone, Copy, Debug, PartialEq, Eq, Structural)]
pub struct FutexCall {
    /// What to do.
    pub cmd: FutexCmd,
    /// The caller asked for a shared futex; it gets a private one.
    pub shared: bool,
    /// Address of the futex word.
    pub uaddr: usize,
    /// Expected value of a wait; number to wake otherwise.
    pub val: u32,
    /// Address of the timeout of a wait; number to move of a requeue.
    pub val2: usize,
    /// Address of the second futex word of a requeue.
    pub uaddr2: usize,
    /// Bitset of the bitset commands; expected value of a requeue.
    pub val3: u32,
}

/// The command that an operation word selects, if it is one that is
/// carried out.
pub open spec fn command_of(op: u32) -> Option<FutexCmd> {
    let cmd = op & FUTEX_CMD_MASK;
    if cmd == FUTEX_WAIT {
        Some(FutexCmd::Wait)
    } else if cmd == FUTEX_WAIT_BITSET {
        Some(FutexCmd::WaitBitset)
    } else if cmd == FUTEX_WAKE {
        Some(FutexCmd::Wake)
    } else if cmd == FUTEX_WAKE_BITSET {
        Some(FutexCmd::WakeBitset)
    } else if cmd == FUTEX_REQUEUE {
        Some(FutexCmd::Requeue)
    } else {
        None
    }
}

/// What the argument words of a futex call mean. The real-time clock, the
/// two commands that are not implemented and every unknown command are
/// refused with `ENOSYS`.
pub open spec fn decoded(args: [usize; 6]) -> Result<FutexCall, SyscallError> {
    let op = low32(args[1]);
    if op_realtime(op) {
        Err(SyscallError::ENOSYS)
    } else {
        match command_of(op) {
            None => Err(SyscallError::ENOSYS),
            Some(cmd) => Ok(
                FutexCall {
                    cmd,
                    shared: op_shared(op),
                    uaddr: args[0],
                    val: low32(args[2]),
                    val2: args[3],
                    uaddr2: args[4],
                    val3: low32(args[5]),
                },
            ),
        }
    }
}

/// Decodes the argument words of a futex call: `uaddr`, `op`, `val`,
/// `timeout` or `val2`, `uaddr2`, `val3`.
pub fn decode_futex(args: [usize; 6]) -> (r: Result<FutexCall, SyscallError>)
    ensures
        r == decoded(args),
{
    let op = low_word(args[1]);
    let flags = futex_op_to_flag(op);
    if (flags & FLAGS_CLOCKRT) != 0 {
        return Err(SyscallError::ENOSYS);
    }
    let code = op & FUTEX_CMD_MASK;
    let cmd = if code == FUTEX_WAIT {
        FutexCmd::Wait
    } else if code == FUTEX_WAIT_BITSET {
        FutexCmd::WaitBitset
    } else if code == FUTEX_WAKE {
        FutexCmd::Wake
    } else if code == FUTEX_WAKE_BITSET {
        FutexCmd::WakeBitset
    } else if code == FUTEX_REQUEUE {
        FutexCmd::Requeue
    } else {
        return Err(SyscallError::ENOSYS);
    };
    Ok(
        FutexCall {
            cmd,
            shared: (flags & FLAGS_SHARED) != 0,
            uaddr: args[0],
            val: low_word(args[2]),
            val2: args[3],
            uaddr2: args[4],
            val3: low_word(args[5]),
        },
    )
}

impl FutexCall {
    /// The call waits: the timeout at `val2` is to be read, if `val2` is not
    /// null and the memory is mapped.
    pub fn reads_timeout(&self) -> (r: bool)
        ensures
            r == ((self.cmd is Wait || self.cmd is WaitBitset) && self.val2 != 0),
    {
        match self.cmd {
            FutexCmd::Wait | FutexCmd::WaitBitset => self.val2 != 0,
            _ => false,
        }
    }

    /// The call compares the futex word at `uaddr`: it is to be read under
    /// the table's lock.
    pub fn reads_value(&self) -> (r: bool)
        ensures
            r == (self.cmd is Wait || self.cmd is WaitBitset || self.cmd is Requeue),
    {
        match self.cmd {
            FutexCmd::Wait | FutexCmd::WaitBitset | FutexCmd::Requeue => true,
            _ => false,
        }
    }
}

/// What a futex call that succeeded leaves for its caller to do.
#[derive(Debug)]
pub enum FutexOutcome {
    /// The calling task is queued as `waiter`: suspend it for at most
    /// `timeout` nanoseconds, without limit if `None`.
    Blocked { waiter: Waiter, timeout: Option<u64> },
    /// These waiters were taken off their queue: resume each.
    Woken { resumed: Vec<Waiter> },
    /// These waiters were taken off their queue: resume each. `moved` others
    /// went to the second futex and stay suspended.
    Requeued { resumed: Vec<Waiter>, moved: usize },
}

impl FutexOutcome {
    /// The value that the system call returns on success: always zero.
    pub fn return_value(&self) -> (r: isize)
        ensures
            r == 0,
    {
        0
    }
}

/// The timeout struct that a wait goes by: none where the pointer is null.
pub open spec fn timeout_read(call: FutexCall, timeout: Option<TimeSecs>) -> Option<TimeSecs> {
    if call.val2 == 0 {
        None
    } else {
        timeout
    }
}

/// The low 32 bits of `val2`: how many waiters a requeue may move.
pub open spec fn move_limit(call: FutexCall) -> u32 {
    low32(call.val2)
}

/// The futex system call, to be made with the table locked.
///
/// `space` and `task` identify the caller. `observed` is the futex word at
/// `uaddr`, read under the lock, or `None` where it is not mapped; `timeout`
/// is the struct that `val2` points to, if it is mapped. Both count only for
/// the commands that use them. `now` is the monotonic time in nanoseconds.
///
/// A call that [`decoded`] refuses fails with its error and touches no
/// queue. A command that compares the futex word fails with `EFAULT`, and
/// touches no queue, where the word could not be read. A wait queues the
/// caller or fails with `EAGAIN`
/// ([`futex_wait`]); the plain wait takes any bitset and a relative timeout,
/// the bitset wait takes `val3` and an absolute deadline. A wake takes up to
/// `val` waiters off the queue. A requeue compares the word with `val3`,
/// wakes up to `val` waiters and moves up to `val2` to the futex at `uaddr2`.
pub fn syscall_futex(
    queues: &mut WaitQueues,
    space: u64,
    task: u64,
    args: [usize; 6],
    observed: Option<u32>,
    timeout: Option<TimeSecs>,
    now: u64,
) -> (r: Result<FutexOutcome, SyscallError>)
    requires
        old(queues).wf(),
    ensures
        final(queues).wf(),
        decoded(args) matches Err(e) ==> r matches Err(e2) && e2 == e && final(queues)@ == old(queues)@,
        decoded(args) matches Ok(call) ==> {
            let m = old(queues)@;
            let key = FutexKey { space, addr: call.uaddr };
            let key2 = FutexKey { space, addr: call.uaddr2 };
            match call.cmd {
                FutexCmd::Wait => {
                    let w = Waiter { key, bitset: FUTEX_BITSET_MATCH_ANY, task, enqueued_at: now };
                    if observed is None {
                        r matches Err(e) && e == SyscallError::EFAULT && final(queues)@ == m
                    } else if observed != Some(call.val) {
                        r matches Err(e) && e == SyscallError::EAGAIN && final(queues)@ == m
                    } else {
                        r matches Ok(FutexOutcome::Blocked { waiter, timeout: limit }) && waiter == w
                            && limit == relative_timeout(timeout_read(call, timeout), false, now)
                            && final(queues)@ == wait_table(m, w)
                    }
                },
                FutexCmd::WaitBitset => {
                    let w = Waiter { key, bitset: call.val3, task, enqueued_at: now };
                    if observed is None {
                        r matches Err(e) && e == SyscallError::EFAULT && final(queues)@ == m
                    } else if observed != Some(call.val) {
                        r matches Err(e) && e == SyscallError::EAGAIN && final(queues)@ == m
                    } else {
                        r matches Ok(FutexOutcome::Blocked { waiter, timeout: limit }) && waiter == w
                            && limit == relative_timeout(timeout_read(call, timeout), true, now)
                            && final(queues)@ == wait_table(m, w)
                    }
                },
                FutexCmd::Wake => {
                    r matches Ok(FutexOutcome::Woken { resumed }) && resumed@ == woken_by(
                        queue_at(m, key),
                        call.val as nat,
                        FUTEX_BITSET_MATCH_ANY,
                    ) && final(queues)@ == set_queue(
                        m,
                        key,
                        left_by(queue_at(m, key), call.val as nat, FUTEX_BITSET_MATCH_ANY),
                    )
                },
                FutexCmd::WakeBitset => {
                    r matches Ok(FutexOutcome::Woken { resumed }) && resumed@ == woken_by(
                        queue_at(m, key),
                        call.val as nat,
                        call.val3,
                    ) && final(queues)@ == set_queue(
                        m,
                        key,
                        left_by(queue_at(m, key), call.val as nat, call.val3),
                    )
                },
                FutexCmd::Requeue => {
                    if observed is None {
                        r matches Err(e) && e == SyscallError::EFAULT && final(queues)@ == m
                    } else if observed != Some(call.val3) {
                        r matches Err(e) && e == SyscallError::EAGAIN && final(queues)@ == m
                    } else {
                        r matches Ok(FutexOutcome::Requeued { resumed, moved }) && resumed@
                            == woken_by(queue_at(m, key), call.val as nat, FUTEX_BITSET_MATCH_ANY)
                            && moved == requeue_moved(
                            m,
                            key,
                            key2,
                            move_limit(call) as nat,
                            call.val as nat,
                            FUTEX_BITSET_MATCH_ANY,
                        ) && final(queues)@ == requeue_table(
                            m,
                            key,
                            key2,
                            move_limit(call) as nat,
                            call.val as nat,
                            FUTEX_BITSET_MATCH_ANY,
                        )
                    }
                },
            }
        },
{
    let call = match decode_futex(args) {
        Ok(call) => call,
        Err(e) => {
            return Err(e);
        },
    };
    let flags: u32 = if call.shared {
        FLAGS_SHARED
    } else {
        0
    };
    let key = futex_get_key(call.uaddr, flags, space).key;
    let word = match observed {
        Some(word) => word,
        None => {
            if call.reads_value() {
                return Err(SyscallError::EFAULT);
            }
            0
        },
    };
    match call.cmd {
        FutexCmd::Wait => {
            let read = if call.val2 == 0 {
                None
            } else {
                timeout
            };
            let limit = wait_timeout(read, false, now);
            match futex_wait(queues, key, task, call.val, word, FUTEX_BITSET_MATCH_ANY, now) {
                Ok(waiter) => Ok(FutexOutcome::Blocked { waiter, timeout: limit }),
                Err(e) => Err(e),
            }
        },
        FutexCmd::WaitBitset => {
            let read = if call.val2 == 0 {
                None
            } else {
                timeout
            };
            let limit = wait_timeout(read, true, now);
            match futex_wait(queues, key, task, call.val, word, call.val3, now) {
                Ok(waiter) => Ok(FutexOutcome::Blocked { waiter, timeout: limit }),
                Err(e) => Err(e),
            }
        },
        FutexCmd::Wake => {
            let resumed = futex_wake(queues, key, call.val);
            Ok(FutexOutcome::Woken { resumed })
        },
        FutexCmd::WakeBitset => {
            let resumed = futex_wake_bitset(queues, key, call.val, call.val3);
            Ok(FutexOutcome::Woken { resumed })
        },
        FutexCmd::Requeue => {
            let key2 = futex_get_key(call.uaddr2, flags, space).key;
            match futex_requeue(
                queues,
                key,
                key2,
                call.val,
                low_word(call.val2),
                call.val3,
                word,
            ) {
                Ok((resumed, moved)) => Ok(FutexOutcome::Requeued { resumed, moved }),
                Err(e) => Err(e),
            }
        },
    }
}

/// The registry after `set_robust_list(head, len)` by thread `tid`: the
/// thread's entry is written only if the length is the fixed one and the
/// head is mapped.
pub open spec fn robust_set_table(
    reg: Map<u64, FutexRobustList>,
    tid: u64,
    head: usize,
    len: usize,
    head_mapped: bool,
) -> Map<u64, FutexRobustList> {
    if len == robust_list_len() && head_mapped {
        reg.insert(tid, FutexRobustList { head, len })
    } else {
        reg
    }
}

/// What `set_robust_list(head, len)` returns.
pub open spec fn robust_set_result(len: usize, head_mapped: bool) -> SyscallResult {
    if len == robust_list_len() && head_mapped {
        Ok(0isize)
    } else {
        Err(SyscallError::EINVAL)
    }
}

/// What `get_robust_list(selector, ..)` by thread `tid` returns: the thread's
/// own entry, where the selector is zero, the output locations are mapped and
/// the thread has registered.
pub open spec fn robust_get_result(
    reg: Map<u64, FutexRobustList>,
    tid: u64,
    selector: usize,
    out_mapped: bool,
) -> Result<FutexRobustList, SyscallError> {
    if low32(selector) == 0 && out_mapped && reg.dom().contains(tid) {
        Ok(reg[tid])
    } else {
        Err(SyscallError::EPERM)
    }
}

/// The `set_robust_list` system call by thread `tid`: `args[0]` is the list
/// head, `args[1]` its declared length. `head_mapped` says whether the head
/// could be faulted in; it counts only where the length is right.
///
/// Fails with `EINVAL` where the length is not [`robust_list_size`] or the
/// head is not mapped, and then leaves the registry as it was. Otherwise the
/// thread's entry is written, over an earlier one if there was one.
pub fn syscall_set_robust_list(
    registry: &mut RobustListRegistry,
    tid: u64,
    args: [usize; 6],
    head_mapped: bool,
) -> (r: SyscallResult)
    ensures
        r == robust_set_result(args[1], head_mapped),
        final(registry)@ == robust_set_table(old(registry)@, tid, args[0], args[1], head_mapped),
{
    let head = args[0];
    let len = args[1];
    if len != robust_list_size() {
        return Err(SyscallError::EINVAL);
    }
    if head_mapped {
        registry.insert(tid, FutexRobustList::new(head, len));
        Ok(0)
    } else {
        Err(SyscallError::EINVAL)
    }
}

/// The `get_robust_list` system call by thread `tid`: `args[0]` selects the
/// thread, and only zero, the caller itself, is served. `out_mapped` says
/// whether the locations for the answer could be faulted in.
///
/// Returns what the thread registered, for the caller to write back, or
/// fails with `EPERM`.
pub fn syscall_get_robust_list(
    registry: &RobustListRegistry,
    tid: u64,
    args: [usize; 6],
    out_mapped: bool,
) -> (r: Result<FutexRobustList, SyscallError>)
    ensures
        r == robust_get_result(registry@, tid, args[0], out_mapped),
{
    let pid = low_word(args[0]);
    if pid != 0 {
        return Err(SyscallError::EPERM);
    }
    if !out_mapped {
        return Err(SyscallError::EPERM);
    }
    match registry.get(tid) {
        Some(entry) => Ok(entry),
        None => Err(SyscallError::EPERM),
    }
}

} // verus!
