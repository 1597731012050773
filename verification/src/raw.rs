//! The wire, line by line, and the operator's place in it.

use vstd::prelude::*;

use crate::protocol::RawLine;
use crate::scroll::Scroll;

verus! {

/// The wire lines in the order they went, and which one is selected. The
/// selection stays on the newest line until the operator moves it, and again
/// once they return to it.
#[derive(Debug, PartialEq, Eq)]
pub struct RawView {
    pub lines: Vec<RawLine>,
    pub selected: usize,
    pub follow: bool,
    pub preview: Scroll,
}

impl Default for RawView {
    fn default() -> (r: RawView)
        ensures
            r.lines@ == Seq::<RawLine>::empty(),
            r == (RawView { lines: r.lines, selected: 0, follow: true, preview: Scroll::at_top() }),
            r.wf(),
    {
        RawView { lines: Vec::new(), selected: 0, follow: true, preview: Scroll::default() }
    }
}

impl RawView {
    /// Take over the whole wire history, from its newest line, where it is longer
    /// than what is known.
    pub fn take_history(&mut self, lines: Vec<RawLine>)
        ensures
            *final(self) == if lines@.len() > old(self).lines@.len() {
                RawView {
                    lines,
                    selected: (lines@.len() - 1) as usize,
                    follow: true,
                    preview: Scroll::at_top(),
                }
            } else {
                *old(self)
            },
            old(self).wf() ==> final(self).wf(),
    {
        if lines.len() > self.lines.len() {
            let last: usize = lines.len() - 1;
            *self = RawView { lines, selected: last, follow: true, preview: Scroll::default() };
        }
    }

    /// The selection is on a line where there is one, and on the last line
    /// while it follows.
    pub open spec fn wf(self) -> bool {
        &&& self.lines@.len() == 0 ==> self.selected == 0
        &&& self.lines@.len() > 0 ==> self.selected < self.lines@.len()
        &&& self.follow && self.lines@.len() > 0 ==> self.selected == self.lines@.len() - 1
    }

    /// The last position, or zero where there is no line.
    pub open spec fn tail(self) -> usize {
        if self.lines@.len() == 0 {
            0
        } else {
            (self.lines@.len() - 1) as usize
        }
    }

    /// This view opened on `line`, or on the newest line.
    pub open spec fn entered(self, line: Option<usize>) -> RawView {
        match line {
            Some(index) if self.lines@.len() > 0 => RawView {
                selected: if index <= self.tail() {
                    index
                } else {
                    self.tail()
                },
                follow: false,
                preview: self.preview.top(),
                ..self
            },
            _ => RawView {
                selected: self.tail(),
                follow: true,
                preview: self.preview.top(),
                ..self
            },
        }
    }

    /// One line further, following again from the last line on.
    pub open spec fn next(self) -> RawView {
        let moves = self.selected + 1 < self.lines@.len();
        let at = if moves {
            (self.selected + 1) as usize
        } else {
            self.selected
        };
        RawView {
            selected: at,
            preview: if moves {
                self.preview.top()
            } else {
                self.preview
            },
            follow: self.lines@.len() > 0 && at + 1 >= self.lines@.len(),
            ..self
        }
    }

    /// One line back. The selection stays where it is from then on.
    pub open spec fn prev(self) -> RawView {
        RawView {
            selected: if self.selected > 0 {
                (self.selected - 1) as usize
            } else {
                self.selected
            },
            preview: if self.selected > 0 {
                self.preview.top()
            } else {
                self.preview
            },
            follow: false,
            ..self
        }
    }

    /// On the first line, where there is one.
    pub open spec fn first(self) -> RawView {
        if self.lines@.len() == 0 {
            self
        } else {
            RawView { selected: 0, preview: self.preview.top(), follow: false, ..self }
        }
    }

    /// On the last line, where there is one, and following.
    pub open spec fn last(self) -> RawView {
        if self.lines@.len() == 0 {
            self
        } else {
            RawView { selected: self.tail(), preview: self.preview.top(), follow: true, ..self }
        }
    }

    /// Whether a line at the end leads from this list to another.
    pub open spec fn grows(self, line: RawLine, after: RawView) -> bool {
        &&& after.lines@ == self.lines@.push(line)
        &&& after == (RawView {
            lines: after.lines,
            selected: if self.follow {
                self.lines@.len() as usize
            } else {
                self.selected
            },
            preview: if self.follow {
                self.preview.top()
            } else {
                self.preview
            },
            ..self
        })
    }

    /// Append a line. The selection moves to it only while it follows.
    pub fn push(&mut self, line: RawLine)
        requires
            old(self).wf(),
        ensures
            old(self).grows(line, *final(self)),
            final(self).wf(),
    {
        self.lines.push(line);
        if self.follow {
            self.selected = self.lines.len() - 1;
            self.preview.reset();
        }
    }

    pub fn is_empty(&self) -> (r: bool)
        ensures
            r == (self.lines@.len() == 0),
    {
        self.lines.len() == 0
    }

    pub fn get(&self, index: usize) -> (r: Option<&RawLine>)
        ensures
            match r {
                Some(line) => index < self.lines@.len() && *line == self.lines@[index as int],
                None => index >= self.lines@.len(),
            },
    {
        if index < self.lines.len() {
            Some(&self.lines[index])
        } else {
            None
        }
    }

    /// All lines, oldest first.
    pub fn iter(&self) -> (r: &[RawLine])
        ensures
            r@ == self.lines@,
    {
        self.lines.as_slice()
    }

    /// The position of the newest line.
    pub fn last_index(&self) -> (r: Option<usize>)
        ensures
            match r {
                Some(i) => self.lines@.len() > 0 && i == self.lines@.len() - 1,
                None => self.lines@.len() == 0,
            },
    {
        if self.lines.len() == 0 {
            None
        } else {
            Some(self.lines.len() - 1)
        }
    }

    pub fn selected_index(&self) -> (r: usize)
        ensures
            r == self.selected,
    {
        self.selected
    }

    pub fn selected(&self) -> (r: Option<&RawLine>)
        ensures
            match r {
                Some(line) => self.selected < self.lines@.len() && *line
                    == self.lines@[self.selected as int],
                None => self.selected >= self.lines@.len(),
            },
    {
        self.get(self.selected)
    }

    /// Whether the selection moves with the newest line.
    pub fn is_following(&self) -> (r: bool)
        ensures
            r == self.follow,
    {
        self.follow
    }

    /// Open the view on `line`, or on the newest line.
    pub fn enter(&mut self, line: Option<usize>)
        ensures
            *final(self) == old(self).entered(line),
            final(self).wf(),
    {
        self.preview.reset();
        let count: usize = self.lines.len();
        match line {
            Some(index) if count > 0 => {
                self.selected = if index <= count - 1 {
                    index
                } else {
                    count - 1
                };
                self.follow = false;
            },
            _ => {
                self.selected = if count == 0 {
                    0
                } else {
                    count - 1
                };
                self.follow = true;
            },
        }
    }

    pub fn select_next(&mut self)
        requires
            old(self).wf(),
        ensures
            *final(self) == old(self).next(),
            final(self).wf(),
    {
        let count: usize = self.lines.len();
        if count > 0 && self.selected < count - 1 {
            self.selected = self.selected + 1;
            self.preview.reset();
        }
        self.follow = count > 0 && self.selected >= count - 1;
    }

    pub fn select_prev(&mut self)
        requires
            old(self).wf(),
        ensures
            *final(self) == old(self).prev(),
            final(self).wf(),
    {
        if self.selected > 0 {
            self.selected = self.selected - 1;
            self.preview.reset();
        }
        self.follow = false;
    }

    pub fn select_first(&mut self)
        requires
            old(self).wf(),
        ensures
            *final(self) == old(self).first(),
            final(self).wf(),
    {
        if self.lines.len() == 0 {
            return ;
        }
        self.selected = 0;
        self.preview.reset();
        self.follow = false;
    }

    pub fn select_last(&mut self)
        requires
            old(self).wf(),
        ensures
            *final(self) == old(self).last(),
            final(self).wf(),
    {
        if self.lines.len() == 0 {
            return ;
        }
        self.selected = self.lines.len() - 1;
        self.preview.reset();
        self.follow = true;
    }
}

/// Stepping back from the newest line and forward again resumes following it.
pub proof fn law_returning_to_the_tail_follows(view: RawView)
    requires
        view.wf(),
        view.follow,
        view.lines@.len() > 1,
    ensures
        !view.prev().follow,
        view.prev().next().follow,
        view.prev().next().selected == view.selected,
{
}

} // verus!
