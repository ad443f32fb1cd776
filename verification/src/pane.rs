//! Pane storage: a handle-to-record table that owns all pane metadata.
//!
//! Handles are monotonically increasing integers and are never reused, even
//! after a pane is removed, so a stale handle can never silently reach
//! another pane's record.

use vstd::prelude::*;
use crate::kvtable::{kv_map, keys_unique, lemma_kv_map_contains, lemma_kv_map_index,
    lemma_kv_map_push, lemma_kv_map_remove, lemma_kv_map_update};

verus! {

/// An opaque, copyable identifier of one pane.
#[derive(Debug, Clone, Copy, PartialEq, Eq, Hash, Structural)]
pub struct DivHandle(pub u64);

/// The stored metadata of one pane: its logical (un-zoomed, un-offset)
/// rectangle and its style strings.  The rendered rectangle is recomputed
/// from these on every zoom change, so no drift accumulates.
pub struct PaneRecord {
    pub x: i32,
    pub y: i32,
    pub w: u32,
    pub h: u32,
    pub classes: String,
    pub css: String,
}

/// The mathematical image of a [`PaneRecord`].
pub ghost struct PaneRec {
    pub x: int,
    pub y: int,
    pub w: int,
    pub h: int,
    pub classes: Seq<char>,
    pub css: Seq<char>,
}

impl View for PaneRecord {
    type V = PaneRec;

    open spec fn view(&self) -> PaneRec {
        PaneRec {
            x: self.x as int,
            y: self.y as int,
            w: self.w as int,
            h: self.h as int,
            classes: self.classes@,
            css: self.css@,
        }
    }
}

/// The pane table.  `next` is the handle the next insertion will get; every
/// stored handle is below it.
pub struct PaneStorage {
    entries: Vec<(u64, PaneRecord)>,
    next: u64,
}

impl PaneStorage {
    /// The pairs of the table, abstracted to ghost records.
    pub closed spec fn pairs(&self) -> Seq<(u64, PaneRec)> {
        self.entries@.map_values(|e: (u64, PaneRecord)| (e.0, e.1@))
    }

    /// The handle-to-record map this table represents.
    pub closed spec fn pane_map(&self) -> Map<u64, PaneRec> {
        kv_map(self.pairs())
    }

    /// The next handle to be issued.
    pub closed spec fn next_handle(&self) -> u64 {
        self.next
    }

    /// Well-formedness: handles are distinct and all below `next`.
    pub closed spec fn wf(&self) -> bool {
        &&& keys_unique(self.pairs())
        &&& forall|i: int| 0 <= i < self.pairs().len() ==> (#[trigger] self.pairs()[i]).0
            < self.next
    }

    /// The handle the next insertion will get.
    pub fn next(&self) -> (r: u64)
        ensures
            r == self.next_handle(),
    {
        self.next
    }

    /// Every live handle lies below the allocation counter.
    pub proof fn lemma_bounded(&self)
        requires
            self.wf(),
        ensures
            forall|k: u64| #[trigger] self.pane_map().contains_key(k) ==> k < self.next_handle(),
    {
        assert forall|k: u64| #[trigger] self.pane_map().contains_key(k) implies k
            < self.next_handle() by {
            lemma_kv_map_contains(self.pairs(), k);
            let i = choose|i: int| 0 <= i < self.pairs().len() && self.pairs()[i].0 == k;
            assert(self.pairs()[i].0 < self.next);
        }
    }

    /// An empty table whose first handle will be 0.
    pub fn empty() -> (r: Self)
        ensures
            r.wf(),
            r.pane_map() == Map::<u64, PaneRec>::empty(),
            r.next_handle() == 0,
    {
        let r = PaneStorage { entries: Vec::new(), next: 0 };
        proof {
            assert(r.pairs() =~= Seq::<(u64, PaneRec)>::empty());
        }
        r
    }

    /// The index of the entry owning a handle, if the handle is live.
    fn find(&self, h: u64) -> (r: Option<usize>)
        requires
            self.wf(),
        ensures
            match r {
                Some(i) => i < self.pairs().len() && self.pairs()[i as int].0 == h
                    && self.pane_map().contains_key(h) && self.pane_map()[h]
                    == self.pairs()[i as int].1,
                None => !self.pane_map().contains_key(h),
            },
    {
        let n = self.entries.len();
        let mut i: usize = 0;
        while i < n
            invariant
                n == self.entries.len(),
                i <= n,
                self.wf(),
                forall|j: int| 0 <= j < i ==> (#[trigger] self.pairs()[j]).0 != h,
            decreases n - i,
        {
            if self.entries[i].0 == h {
                proof {
                    lemma_kv_map_index(self.pairs(), i as int);
                }
                return Some(i);
            }
            i += 1;
        }
        proof {
            lemma_kv_map_contains(self.pairs(), h);
        }
        None
    }

    /// The record of a live handle.
    pub fn get(&self, h: u64) -> (r: Option<&PaneRecord>)
        requires
            self.wf(),
        ensures
            match r {
                Some(rec) => self.pane_map().contains_key(h) && rec@ == self.pane_map()[h],
                None => !self.pane_map().contains_key(h),
            },
    {
        match self.find(h) {
            Some(i) => Some(&self.entries[i].1),
            None => None,
        }
    }

    /// Stores a record under a fresh handle and returns the handle.
    pub fn insert(&mut self, rec: PaneRecord) -> (h: u64)
        requires
            old(self).wf(),
            old(self).next_handle() < u64::MAX,
        ensures
            final(self).wf(),
            h == old(self).next_handle(),
            final(self).next_handle() == old(self).next_handle() + 1,
            !old(self).pane_map().contains_key(h),
            final(self).pane_map() == old(self).pane_map().insert(h, rec@),
    {
        let h = self.next;
        let ghost oldpairs = self.pairs();
        let ghost grec = rec@;
        proof {
            lemma_kv_map_contains(oldpairs, h);
        }
        self.entries.push((h, rec));
        self.next = h + 1;
        proof {
            assert(self.pairs() =~= oldpairs.push((h, grec)));
            lemma_kv_map_push(oldpairs, h, grec);
        }
        h
    }

    /// Removes the record of a handle; reports whether the handle was live.
    pub fn remove(&mut self, h: u64) -> (r: bool)
        requires
            old(self).wf(),
        ensures
            final(self).wf(),
            final(self).next_handle() == old(self).next_handle(),
            r == old(self).pane_map().contains_key(h),
            final(self).pane_map() == if r {
                old(self).pane_map().remove(h)
            } else {
                old(self).pane_map()
            },
    {
        let ghost oldpairs = self.pairs();
        match self.find(h) {
            Some(i) => {
                proof {
                    lemma_kv_map_remove(oldpairs, i as int);
                }
                self.entries.remove(i);
                proof {
                    assert(self.pairs() =~= oldpairs.remove(i as int));
                }
                true
            },
            None => false,
        }
    }

    /// Moves a live pane's logical rectangle to a new corner.
    pub fn set_pos(&mut self, h: u64, x: i32, y: i32) -> (r: bool)
        requires
            old(self).wf(),
        ensures
            final(self).wf(),
            final(self).next_handle() == old(self).next_handle(),
            r == old(self).pane_map().contains_key(h),
            final(self).pane_map() == if r {
                old(self).pane_map().insert(
                    h,
                    PaneRec { x: x as int, y: y as int, ..old(self).pane_map()[h] },
                )
            } else {
                old(self).pane_map()
            },
    {
        let ghost oldpairs = self.pairs();
        match self.find(h) {
            Some(i) => {
                let (key, mut rec) = self.entries.remove(i);
                rec.x = x;
                rec.y = y;
                let ghost grec = rec@;
                self.entries.insert(i, (key, rec));
                proof {
                    assert(self.pairs() =~= oldpairs.update(i as int, (h, grec)));
                    lemma_kv_map_update(oldpairs, i as int, grec);
                }
                true
            },
            None => false,
        }
    }

    /// Resizes a live pane's logical rectangle.
    pub fn set_size(&mut self, h: u64, w: u32, hh: u32) -> (r: bool)
        requires
            old(self).wf(),
        ensures
            final(self).wf(),
            final(self).next_handle() == old(self).next_handle(),
            r == old(self).pane_map().contains_key(h),
            final(self).pane_map() == if r {
                old(self).pane_map().insert(
                    h,
                    PaneRec { w: w as int, h: hh as int, ..old(self).pane_map()[h] },
                )
            } else {
                old(self).pane_map()
            },
    {
        let ghost oldpairs = self.pairs();
        match self.find(h) {
            Some(i) => {
                let (key, mut rec) = self.entries.remove(i);
                rec.w = w;
                rec.h = hh;
                let ghost grec = rec@;
                self.entries.insert(i, (key, rec));
                proof {
                    assert(self.pairs() =~= oldpairs.update(i as int, (h, grec)));
                    lemma_kv_map_update(oldpairs, i as int, grec);
                }
                true
            },
            None => false,
        }
    }
}

} // verus!
