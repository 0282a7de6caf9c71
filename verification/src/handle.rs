//! The handle table: the platform holds positive integers (0 is never valid) in place of
//! addresses, and the table turns them back. Handles are never reused.
use vstd::prelude::*;

verus! {

/// Value stored under handle `h` (the last entry for it).
pub open spec fn handle_value(s: Seq<(u64, usize)>, h: u64) -> Option<usize>
    decreases s.len(),
{
    if s.len() == 0 {
        None
    } else if s.last().0 == h {
        Some(s.last().1)
    } else {
        handle_value(s.drop_last(), h)
    }
}

/// Handles to addresses.
pub struct HandleTable {
    next: u64,
    entries: Vec<(u64, usize)>,
}

impl HandleTable {
    /// The next handle to give.
    pub closed spec fn next_handle(&self) -> u64 {
        self.next
    }

    /// The registered entries.
    pub closed spec fn entries_view(&self) -> Seq<(u64, usize)> {
        self.entries@
    }

    /// An empty table; the first handle is 1.
    pub fn new() -> (r: HandleTable)
        ensures
            r.next_handle() == 1,
            r.entries_view().len() == 0,
    {
        HandleTable { next: 1, entries: Vec::new() }
    }

    /// Registers `ptr` and answers its handle; the null address gets 0 and nothing is
    /// registered. The counter wraps like the atomic it stands for.
    pub fn put(&mut self, ptr: usize) -> (r: u64)
        ensures
            ptr == 0 ==> r == 0 && *final(self) == *old(self),
            ptr != 0 ==> r == old(self).next_handle()
                && final(self).next_handle() == old(self).next_handle().wrapping_add(1)
                && final(self).entries_view() == old(self).entries_view().push((r, ptr)),
    {
        if ptr == 0 {
            return 0;
        }
        let h = self.next;
        self.next = self.next.wrapping_add(1);
        self.entries.push((h, ptr));
        h
    }

    fn find(&self, handle: u64) -> (r: Option<usize>)
        ensures
            match r {
                Some(i) => i < self.entries@.len() && self.entries@[i as int].0 == handle
                    && handle_value(self.entries@, handle) == Some(self.entries@[i as int].1),
                None => handle_value(self.entries@, handle) is None,
            },
    {
        let mut found: Option<usize> = None;
        let mut i: usize = 0;
        assert(self.entries@.take(0) =~= Seq::<(u64, usize)>::empty());
        while i < self.entries.len()
            invariant
                i <= self.entries.len(),
                match found {
                    Some(j) => j < i && self.entries@[j as int].0 == handle
                        && handle_value(self.entries@.take(i as int), handle) == Some(self.entries@[j as int].1),
                    None => handle_value(self.entries@.take(i as int), handle) is None,
                },
            decreases self.entries.len() - i,
        {
            assert(self.entries@.take(i + 1).drop_last() =~= self.entries@.take(i as int));
            if self.entries[i].0 == handle {
                found = Some(i);
            }
            i = i + 1;
        }
        assert(self.entries@.take(self.entries.len() as int) =~= self.entries@);
        found
    }

    /// The address of a handle; 0 for handle 0 or an unknown handle.
    pub fn get(&self, handle: u64) -> (r: usize)
        ensures
            r == if handle == 0 {
                0
            } else {
                match handle_value(self.entries_view(), handle) {
                    Some(p) => p,
                    None => 0,
                }
            },
    {
        if handle == 0 {
            return 0;
        }
        match self.find(handle) {
            Some(i) => self.entries[i].1,
            None => 0,
        }
    }

    /// Takes a handle out of the table and answers its address (0 when unknown).
    pub fn take(&mut self, handle: u64) -> (r: usize)
        ensures
            r == if handle == 0 {
                0
            } else {
                match handle_value(old(self).entries_view(), handle) {
                    Some(p) => p,
                    None => 0,
                }
            },
            final(self).next_handle() == old(self).next_handle(),
            handle != 0 && handle_value(old(self).entries_view(), handle) is Some ==>
                final(self).entries_view().len() + 1 == old(self).entries_view().len(),
            handle == 0 || handle_value(old(self).entries_view(), handle) is None ==>
                final(self).entries_view() == old(self).entries_view(),
    {
        if handle == 0 {
            return 0;
        }
        match self.find(handle) {
            Some(i) => {
                let e = self.entries.remove(i);
                e.1
            },
            None => 0,
        }
    }

    /// The number of registered handles.
    pub fn count(&self) -> (r: usize)
        ensures
            r == self.entries_view().len(),
    {
        self.entries.len()
    }
}

} // verus!
