//! A list that is read from its end.

use vstd::prelude::*;

verus! {

/// Entries in the order they came, and how far back from the newest the view
/// is scrolled.
#[derive(Debug)]
pub struct Tail<T> {
    pub items: Vec<T>,
    pub back: usize,
}

impl<T> Tail<T> {
    /// The view is not scrolled past the oldest entry.
    pub open spec fn wf(self) -> bool {
        self.items@.len() == 0 && self.back == 0 || self.back < self.items@.len()
    }

    /// Scrolled back as far as there are entries.
    pub open spec fn furthest(self) -> usize {
        if self.items@.len() == 0 {
            0
        } else {
            (self.items@.len() - 1) as usize
        }
    }

    /// One entry further back, where there is one.
    pub open spec fn up(self) -> Tail<T> {
        Tail {
            back: if self.back < self.furthest() {
                (self.back + 1) as usize
            } else {
                self.furthest()
            },
            ..self
        }
    }

    /// One entry closer to the newest.
    pub open spec fn down(self) -> Tail<T> {
        Tail {
            back: if self.back > 0 {
                (self.back - 1) as usize
            } else {
                0
            },
            ..self
        }
    }

    pub fn new() -> (r: Tail<T>)
        ensures
            r.items@.len() == 0,
            r.back == 0,
            r.wf(),
    {
        Tail { items: Vec::new(), back: 0 }
    }

    /// Append an entry. A view that is scrolled back stays on what it shows.
    pub fn push(&mut self, item: T)
        requires
            old(self).wf(),
        ensures
            final(self).items@ == old(self).items@.push(item),
            final(self).back == if old(self).back > 0 {
                (old(self).back + 1) as usize
            } else {
                0
            },
            final(self).wf(),
    {
        self.items.push(item);
        let count: usize = self.items.len();
        if self.back > 0 {
            assert(self.back < count);
            self.back = self.back + 1;
        }
    }

    /// Show other entries, from the newest.
    pub fn set(&mut self, items: Vec<T>)
        ensures
            *final(self) == (Tail { items, back: 0 }),
            final(self).wf(),
    {
        self.items = items;
        self.back = 0;
    }

    pub fn is_empty(&self) -> (r: bool)
        ensures
            r == (self.items@.len() == 0),
    {
        self.items.len() == 0
    }

    pub fn scroll_back(&self) -> (r: usize)
        ensures
            r == self.back,
    {
        self.back
    }

    pub fn scroll_up(&mut self)
        ensures
            *final(self) == old(self).up(),
            final(self).wf(),
    {
        let furthest: usize = self.items.len().saturating_sub(1);
        self.back = if self.back < furthest {
            self.back + 1
        } else {
            furthest
        };
    }

    pub fn scroll_down(&mut self)
        ensures
            *final(self) == old(self).down(),
            old(self).wf() ==> final(self).wf(),
    {
        self.back = self.back.saturating_sub(1);
    }

    pub fn scroll_to_top(&mut self)
        ensures
            *final(self) == (Tail { back: old(self).furthest(), ..*old(self) }),
            final(self).wf(),
    {
        self.back = self.items.len().saturating_sub(1);
    }

    pub fn scroll_to_bottom(&mut self)
        ensures
            *final(self) == (Tail { back: 0, ..*old(self) }),
            final(self).wf(),
    {
        self.back = 0;
    }
}

} // verus!
