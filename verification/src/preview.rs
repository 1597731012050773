//! The panel that shows one entry in full.

use vstd::prelude::*;

use crate::scroll::Scroll;

verus! {

/// How an entry is written out.
#[derive(Clone, Copy, Debug, PartialEq, Eq, Structural)]
pub enum PresentationMode {
    Pretty,
    Raw,
}

impl PresentationMode {
    pub open spec fn swapped(self) -> PresentationMode {
        match self {
            PresentationMode::Pretty => PresentationMode::Raw,
            PresentationMode::Raw => PresentationMode::Pretty,
        }
    }
}

/// Which entry the panel shows.
#[derive(Clone, Copy, Debug, PartialEq, Eq, Structural)]
pub enum PreviewTarget {
    /// The entry the list selection is on.
    Selection,
    /// The newest command and its result, wherever the selection is.
    Command,
}

impl PreviewTarget {
    pub open spec fn swapped(self) -> PreviewTarget {
        match self {
            PreviewTarget::Selection => PreviewTarget::Command,
            PreviewTarget::Command => PreviewTarget::Selection,
        }
    }
}

/// The panel's display choices, which outlive the screen they were made on.
#[derive(Clone, Copy, Debug, PartialEq, Eq, Structural)]
pub struct Choices {
    pub open: bool,
    pub mode: PresentationMode,
    pub target: PreviewTarget,
}

/// Whether the panel is open, what it shows, and how far it is scrolled.
#[derive(Clone, Copy, Debug, PartialEq, Eq, Structural)]
pub struct Preview {
    pub open: bool,
    pub scroll: Scroll,
    pub mode: PresentationMode,
    pub target: PreviewTarget,
}

impl Default for Preview {
    fn default() -> (r: Preview)
        ensures
            r == Preview::closed(),
    {
        Preview {
            open: false,
            scroll: Scroll::default(),
            mode: PresentationMode::Pretty,
            target: PreviewTarget::Selection,
        }
    }
}

impl Preview {
    /// The panel before it is first opened.
    pub open spec fn closed() -> Preview {
        Preview {
            open: false,
            scroll: Scroll::at_top(),
            mode: PresentationMode::Pretty,
            target: PreviewTarget::Selection,
        }
    }

    /// Scrolled back to the top.
    pub open spec fn top(self) -> Preview {
        Preview { scroll: self.scroll.top(), ..self }
    }

    /// The choices made for this panel.
    pub open spec fn chosen(self) -> Choices {
        Choices { open: self.open, mode: self.mode, target: self.target }
    }

    /// This panel with other choices, from its top.
    pub open spec fn adopting(self, choices: Choices) -> Preview {
        Preview {
            open: choices.open,
            mode: choices.mode,
            target: choices.target,
            scroll: self.scroll.top(),
        }
    }

    pub fn mode(&self) -> (r: PresentationMode)
        ensures
            r == self.mode,
    {
        self.mode
    }

    pub fn target(&self) -> (r: PreviewTarget)
        ensures
            r == self.target,
    {
        self.target
    }

    /// Whether the panel shows the newest command rather than the selection.
    pub fn follows_command(&self) -> (r: bool)
        ensures
            r == (self.target == PreviewTarget::Command),
    {
        self.target == PreviewTarget::Command
    }

    pub fn toggle(&mut self)
        ensures
            *final(self) == (Preview { open: !old(self).open, ..*old(self) }),
    {
        self.open = !self.open;
    }

    pub fn show(&mut self)
        ensures
            *final(self) == (Preview { open: true, ..*old(self) }),
    {
        self.open = true;
    }

    /// Switch how the entry is written out. What is shown changes, so the
    /// panel returns to its top.
    pub fn toggle_mode(&mut self)
        ensures
            *final(self) == (Preview { mode: old(self).mode.swapped(), ..old(self).top() }),
    {
        self.mode = match self.mode {
            PresentationMode::Pretty => PresentationMode::Raw,
            PresentationMode::Raw => PresentationMode::Pretty,
        };
        self.scroll.reset();
    }

    /// Switch which entry is shown, from its top.
    pub fn toggle_target(&mut self)
        ensures
            *final(self) == (Preview { target: old(self).target.swapped(), ..old(self).top() }),
    {
        self.target = match self.target {
            PreviewTarget::Selection => PreviewTarget::Command,
            PreviewTarget::Command => PreviewTarget::Selection,
        };
        self.scroll.reset();
    }

    /// The choices that outlive this screen.
    pub fn choices(&self) -> (r: Choices)
        ensures
            r == self.chosen(),
    {
        Choices { open: self.open, mode: self.mode, target: self.target }
    }

    /// Adopt the choices of another screen. Its offset is not among them.
    pub fn adopt(&mut self, choices: Choices)
        ensures
            *final(self) == old(self).adopting(choices),
    {
        self.open = choices.open;
        self.mode = choices.mode;
        self.target = choices.target;
        self.scroll.reset();
    }
}

/// A panel that adopts another's choices has made the same choices, and shows
/// what it shows from the top.
pub proof fn law_adopted_choices(panel: Preview, other: Preview)
    ensures
        panel.adopting(other.chosen()).chosen() == other.chosen(),
        panel.adopting(other.chosen()).scroll.shown() == 0,
{
}

/// Both switches return to where they were when pressed twice, and neither
/// touches the other's choice.
pub proof fn law_switches_return(mode: PresentationMode, target: PreviewTarget)
    ensures
        mode.swapped().swapped() == mode,
        mode.swapped() != mode,
        target.swapped().swapped() == target,
        target.swapped() != target,
{
}

} // verus!
