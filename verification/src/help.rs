//! The full-screen keyboard reference.

use vstd::prelude::*;

use crate::scroll::{Scroll, SCROLL_PAGE};

verus! {

/// Whether the reference is showing, and where in it.
#[derive(Debug, PartialEq, Eq, Structural, Clone, Copy)]
pub struct Help {
    pub open: bool,
    pub scroll: Scroll,
}

impl Default for Help {
    fn default() -> (r: Help)
        ensures
            r == (Help { open: false, scroll: Scroll::at_top() }),
    {
        Help { open: false, scroll: Scroll::default() }
    }
}

impl Help {
    pub fn is_open(&self) -> (r: bool)
        ensures
            r == self.open,
    {
        self.open
    }

    pub fn open(&mut self)
        ensures
            *final(self) == (Help { open: true, ..*old(self) }),
    {
        self.open = true;
    }

    /// Close the reference, so that it opens at its top the next time.
    pub fn close(&mut self)
        ensures
            *final(self) == (Help { open: false, scroll: old(self).scroll.top() }),
            final(self).scroll.shown() == 0,
    {
        self.open = false;
        self.scroll.reset();
    }

    /// The offset to render at.
    pub fn offset(&self) -> (r: u16)
        ensures
            r == self.scroll.shown(),
    {
        self.scroll.clamped()
    }

    /// Record the furthest the renderer can scroll.
    pub fn note_limit(&mut self, limit: u16)
        ensures
            *final(self) == (Help { scroll: Scroll { limit, ..old(self).scroll }, ..*old(self) }),
    {
        self.scroll.note_limit(limit);
    }

    pub fn line_down(&mut self)
        ensures
            *final(self) == (Help { scroll: old(self).scroll.down(1), ..*old(self) }),
    {
        self.scroll.line_down();
    }

    pub fn line_up(&mut self)
        ensures
            *final(self) == (Help { scroll: old(self).scroll.up(1), ..*old(self) }),
    {
        self.scroll.line_up();
    }

    pub fn page_down(&mut self)
        ensures
            *final(self) == (Help { scroll: old(self).scroll.down(SCROLL_PAGE), ..*old(self) }),
    {
        self.scroll.page_down();
    }

    pub fn page_up(&mut self)
        ensures
            *final(self) == (Help { scroll: old(self).scroll.up(SCROLL_PAGE), ..*old(self) }),
    {
        self.scroll.page_up();
    }

    /// Jump back to the start.
    pub fn scroll_to_top(&mut self)
        ensures
            *final(self) == (Help { scroll: old(self).scroll.top(), ..*old(self) }),
    {
        self.scroll.reset();
    }
}

} // verus!
