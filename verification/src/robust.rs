//! The robust-list registry of one process: for each thread, the list head
//! that it registered.

use vstd::prelude::*;
use std::collections::BTreeMap;

verus! {

/// What a thread registered: where its robust list starts, and the size of
/// the list head as the thread declared it.
#[derive(Clone, Copy, Debug, PartialEq, Eq, Structural)]
pub struct FutexRobustList {
    /// User address of the list head.
    pub head: usize,
    /// Declared size of the list head, in bytes.
    pub len: usize,
}

impl FutexRobustList {
    /// An entry for the list head at `head`, declared `len` bytes long.
    pub fn new(head: usize, len: usize) -> (r: Self)
        ensures
            r == (FutexRobustList { head, len }),
    {
        FutexRobustList { head, len }
    }
}

/// The size of a robust list head, in bytes: three machine words (first
/// entry, futex offset, pending entry).
pub open spec fn robust_list_len() -> int {
    3 * (usize::BITS as int / 8)
}

/// The only length that a registration may declare.
pub fn robust_list_size() -> (r: usize)
    ensures
        r == robust_list_len(),
{
    let word: usize = (usize::BITS / 8) as usize;
    3 * word
}

/// The registry of one process, keyed by thread id.
pub struct RobustListRegistry {
    entries: BTreeMap<u64, FutexRobustList>,
}

impl View for RobustListRegistry {
    type V = Map<u64, FutexRobustList>;

    /// The registry as a map from thread id to what the thread registered.
    closed spec fn view(&self) -> Map<u64, FutexRobustList> {
        self.entries@
    }
}

impl RobustListRegistry {
    /// A registry without entries.
    pub fn new() -> (r: Self)
        ensures
            r@ == Map::<u64, FutexRobustList>::empty(),
    {
        RobustListRegistry { entries: BTreeMap::new() }
    }

    /// Registers `entry` for thread `tid`, in place of what it had registered.
    pub fn insert(&mut self, tid: u64, entry: FutexRobustList)
        ensures
            final(self)@ == old(self)@.insert(tid, entry),
    {
        self.entries.insert(tid, entry);
    }

    /// What thread `tid` registered, if anything.
    pub fn get(&self, tid: u64) -> (r: Option<FutexRobustList>)
        ensures
            r == (if self@.dom().contains(tid) {
                Some(self@[tid])
            } else {
                None
            }),
    {
        match self.entries.get(&tid) {
            Some(e) => Some(*e),
            None => None,
        }
    }

    /// Whether thread `tid` has registered a list.
    pub fn contains_key(&self, tid: u64) -> (r: bool)
        ensures
            r == self@.dom().contains(tid),
    {
        self.entries.contains_key(&tid)
    }
}

} // verus!
