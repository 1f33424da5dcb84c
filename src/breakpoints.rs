//! The breakpoint table.
//!
//! Addresses are recorded for the whole session and survive from one run to
//! the next. The bytes that installing them displaced belong to one process:
//! they are forgotten when a new process starts and recorded again as the
//! breakpoints are patched into it.

use std::collections::HashMap;
use vstd::prelude::*;

verus! {

broadcast use vstd::std_specs::hash::group_hash_axioms;

pub struct BreakpointTable {
    addrs: Vec<u64>,
    originals: HashMap<u64, u8>,
}

impl BreakpointTable {
    /// Recorded addresses, in the order they were set.
    pub closed spec fn addresses(&self) -> Seq<u64> {
        self.addrs@
    }

    /// For each breakpoint installed in the current process, the byte that
    /// its trap replaced.
    pub closed spec fn originals(&self) -> Map<u64, u8> {
        self.originals@
    }

    /// Only recorded addresses are installed.
    pub open spec fn wf(&self) -> bool {
        forall|a: u64| #[trigger] self.originals().contains_key(a) ==> self.addresses().contains(a)
    }

    /// An empty table.
    pub fn new() -> (r: BreakpointTable)
        ensures
            r.wf(),
            r.addresses() == Seq::<u64>::empty(),
            r.originals() == Map::<u64, u8>::empty(),
    {
        BreakpointTable { addrs: Vec::new(), originals: HashMap::new() }
    }

    /// Number of recorded addresses.
    pub fn len(&self) -> (r: usize)
        ensures
            r == self.addresses().len(),
    {
        self.addrs.len()
    }

    /// The address recorded at position `i`.
    pub fn address(&self, i: usize) -> (r: u64)
        requires
            i < self.addresses().len(),
        ensures
            r == self.addresses()[i as int],
    {
        self.addrs[i]
    }

    /// Records `addr` and returns its position, which numbers the
    /// breakpoint for display.
    pub fn add(&mut self, addr: u64) -> (r: usize)
        requires
            old(self).wf(),
        ensures
            final(self).wf(),
            r == old(self).addresses().len(),
            final(self).addresses() == old(self).addresses().push(addr),
            final(self).originals() == old(self).originals(),
    {
        let r = self.addrs.len();
        self.addrs.push(addr);
        proof {
            assert(self.originals() == old(self).originals());
            assert forall|a: u64| #[trigger] self.originals().contains_key(a) implies self.addresses().contains(a) by {
                assert(old(self).originals().contains_key(a));
                assert(old(self).addresses().contains(a));
                let k = choose|k: int| 0 <= k < old(self).addresses().len() && old(self).addresses()[k] == a;
                assert(self.addresses()[k] == a);
            }
        }
        r
    }

    /// Records that the trap at `addr` displaced `original`.
    pub fn record_original(&mut self, addr: u64, original: u8)
        requires
            old(self).wf(),
            old(self).addresses().contains(addr),
        ensures
            final(self).wf(),
            final(self).addresses() == old(self).addresses(),
            final(self).originals() == old(self).originals().insert(addr, original),
    {
        self.originals.insert(addr, original);
        proof {
            assert forall|a: u64| #[trigger] self.originals().contains_key(a) implies self.addresses().contains(a) by {
                if a != addr {
                    assert(old(self).originals().contains_key(a));
                }
            }
        }
    }

    /// Forgets every displaced byte, for a process that has none of the
    /// traps yet.
    pub fn clear_installed(&mut self)
        requires
            old(self).wf(),
        ensures
            final(self).wf(),
            final(self).addresses() == old(self).addresses(),
            final(self).originals() == Map::<u64, u8>::empty(),
    {
        self.originals = HashMap::new();
    }

    /// The byte to restore when stepping over a breakpoint at `addr`, or
    /// `None` where no breakpoint is installed there.
    pub fn original_byte(&self, addr: u64) -> (r: Option<u8>)
        ensures
            r == (if self.originals().contains_key(addr) {
                Some(self.originals()[addr])
            } else {
                None::<u8>
            }),
    {
        match self.originals.get(&addr) {
            Some(b) => Some(*b),
            None => None,
        }
    }
}

} // verus!
