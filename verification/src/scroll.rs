//! How far a panel is scrolled.

use vstd::prelude::*;

verus! {

/// Lines moved by one press of PageUp or PageDown.
pub const SCROLL_PAGE: u16 = 10;

pub open spec fn min_u16(a: u16, b: u16) -> u16 {
    if a <= b {
        a
    } else {
        b
    }
}

fn smaller(a: u16, b: u16) -> (r: u16)
    ensures
        r == min_u16(a, b),
{
    if a <= b {
        a
    } else {
        b
    }
}

/// How far a panel is scrolled, and the furthest its renderer last found that
/// it can be.
#[derive(Debug, PartialEq, Eq, Structural, Clone, Copy)]
pub struct Scroll {
    /// Lines from the top. It may lie past what fits: it is shown through
    /// [`Scroll::clamped`].
    pub offset: u16,
    pub limit: u16,
}

impl Default for Scroll {
    fn default() -> (r: Scroll)
        ensures
            r == Scroll::at_top(),
    {
        Scroll { offset: 0, limit: 0 }
    }
}

impl Scroll {
    /// A panel that has not been rendered.
    pub open spec fn at_top() -> Scroll {
        Scroll { offset: 0, limit: 0 }
    }

    /// The offset that is shown.
    pub open spec fn shown(self) -> u16 {
        min_u16(self.offset, self.limit)
    }

    /// Scrolled `lines` further than shown, no further than fits.
    pub open spec fn down(self, lines: u16) -> Scroll {
        Scroll {
            offset: if self.shown() + lines <= self.limit {
                (self.shown() + lines) as u16
            } else {
                self.limit
            },
            ..self
        }
    }

    /// Scrolled back `lines` from what is shown, no further than the top.
    pub open spec fn up(self, lines: u16) -> Scroll {
        Scroll {
            offset: if self.shown() >= lines {
                (self.shown() - lines) as u16
            } else {
                0
            },
            ..self
        }
    }

    /// Back at the top.
    pub open spec fn top(self) -> Scroll {
        Scroll { offset: 0, ..self }
    }

    /// The offset to render at: what was asked for, held to what fits.
    pub fn clamped(&self) -> (r: u16)
        ensures
            r == self.shown(),
    {
        smaller(self.offset, self.limit)
    }

    /// Record the furthest the renderer can scroll.
    pub fn note_limit(&mut self, limit: u16)
        ensures
            *final(self) == (Scroll { limit, ..*old(self) }),
    {
        self.limit = limit;
    }

    pub fn reset(&mut self)
        ensures
            *final(self) == old(self).top(),
    {
        self.offset = 0;
    }

    /// Jump past the end; what is shown is the last page.
    pub fn scroll_to_end(&mut self)
        ensures
            *final(self) == (Scroll { offset: u16::MAX, ..*old(self) }),
            final(self).shown() == final(self).limit,
    {
        self.offset = u16::MAX;
    }

    pub fn page_down(&mut self)
        ensures
            *final(self) == old(self).down(SCROLL_PAGE),
    {
        let further = self.clamped().saturating_add(SCROLL_PAGE);
        self.offset = smaller(further, self.limit);
    }

    pub fn page_up(&mut self)
        ensures
            *final(self) == old(self).up(SCROLL_PAGE),
    {
        self.offset = self.clamped().saturating_sub(SCROLL_PAGE);
    }

    pub fn line_down(&mut self)
        ensures
            *final(self) == old(self).down(1),
    {
        let further = self.clamped().saturating_add(1);
        self.offset = smaller(further, self.limit);
    }

    pub fn line_up(&mut self)
        ensures
            *final(self) == old(self).up(1),
    {
        self.offset = self.clamped().saturating_sub(1);
    }
}

/// Scrolling down never passes what fits, so a press at the end leaves nothing
/// that scrolling up would first have to undo.
pub proof fn law_scrolling_does_not_accumulate(scroll: Scroll, lines: u16)
    ensures
        scroll.down(lines).offset <= scroll.limit,
        scroll.down(lines).shown() == scroll.down(lines).offset,
        scroll.shown() == scroll.limit ==> scroll.down(lines).shown() == scroll.shown(),
        scroll.down(lines).up(lines).shown() <= scroll.shown(),
{
}

} // verus!
