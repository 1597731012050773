//! The files one reply cites, and the operator's choice among them.

use vstd::prelude::*;

use crate::files::{candidates, citations, looked_for, path_in, path_like, place_of};
use crate::path::{same_path, same_place};
use crate::text::{
    contains_text, holds, parse_number, parsed, same, split_at_each, split_on, view_of, views,
};

verus! {

/// One cited file.
#[derive(Debug, PartialEq, Eq)]
pub struct Reference {
    /// The citation as the reply wrote it.
    pub reported: String,
    /// The line it names.
    pub line: Option<u32>,
    /// The file on this host.
    pub resolved: String,
}

/// What a reference holds.
pub ghost struct ReferenceView {
    pub reported: Seq<char>,
    pub line: Option<u32>,
    pub resolved: Seq<char>,
}

impl View for Reference {
    type V = ReferenceView;

    open spec fn view(&self) -> ReferenceView {
        ReferenceView { reported: self.reported@, line: self.line, resolved: self.resolved@ }
    }
}

/// What the references of a list hold.
pub open spec fn reference_views(list: Seq<Reference>) -> Seq<ReferenceView> {
    list.map_values(|r: Reference| r@)
}

/// The file a citation names: everything before its first colon.
pub open spec fn cited_path(citation: Seq<char>) -> Seq<char> {
    split_at_each(citation, ':')[0]
}

/// The line a citation names: the number behind its first colon.
pub open spec fn cited_line(citation: Seq<char>) -> Option<u32> {
    let fields = split_at_each(citation, ':');
    if fields.len() > 1 {
        match parsed(fields[1], u32::MAX as nat) {
            Some(n) => Some(n as u32),
            None => None,
        }
    } else {
        None
    }
}

/// The file a citation names, and the line.
pub fn split_location(citation: &str) -> (r: (String, Option<u32>))
    ensures
        r.0@ == cited_path(citation@),
        r.1 == cited_line(citation@),
{
    let fields = split_on(citation, ':');
    assert(views(fields@)[0] == fields@[0]@);
    assert(views(fields@).len() == fields@.len());
    let line = if fields.len() > 1 {
        assert(views(fields@)[1] == fields@[1]@);
        match parse_number(fields[1].as_str(), u32::MAX as u64) {
            Some(n) => Some(n as u32),
            None => None,
        }
    } else {
        None
    };
    (fields[0].clone(), line)
}

impl Reference {
    /// The row for a reference: the citation, and the host path behind it
    /// where that is another path.
    pub open spec fn row(self) -> Seq<char> {
        if cited_path(self.reported@) == self.resolved@ {
            self.reported@
        } else {
            self.reported@ + "  →  "@ + self.resolved@
        }
    }

    pub fn label(&self) -> (r: String)
        ensures
            r@ == self.row(),
    {
        let (path, _) = split_location(self.reported.as_str());
        if same(path.as_str(), self.resolved.as_str()) {
            self.reported.clone()
        } else {
            self.reported.clone().concat("  →  ").concat(self.resolved.as_str())
        }
    }
}

/// The file that a citation means, where it is there.
pub open spec fn cited_file(
    citation: Seq<char>,
    root: Option<Seq<char>>,
    present: Seq<String>,
) -> Option<Seq<char>> {
    match path_in(cited_path(citation)) {
        Some(path) => match looked_for(root, path) {
            Some(place) => if holds(present, place) {
                Some(place)
            } else {
                None
            },
            None => None,
        },
        None => None,
    }
}

/// Whether a list already refers to a file.
pub open spec fn refers_to(list: Seq<ReferenceView>, place: Seq<char>) -> bool {
    exists|i: int| 0 <= i < list.len() && same_place((#[trigger] list[i]).resolved, place)
}

/// The references that the citations make, in their order. A file is referred
/// to once, however often it is cited.
pub open spec fn references_from(
    cited: Seq<Seq<char>>,
    root: Option<Seq<char>>,
    present: Seq<String>,
) -> Seq<ReferenceView>
    decreases cited.len(),
{
    if cited.len() == 0 {
        Seq::empty()
    } else {
        let before = references_from(cited.drop_last(), root, present);
        let citation = cited.last();
        match cited_file(citation, root, present) {
            Some(place) => if refers_to(before, place) {
                before
            } else {
                before.push(
                    ReferenceView {
                        reported: citation,
                        line: cited_line(citation),
                        resolved: place,
                    },
                )
            },
            None => before,
        }
    }
}

fn already(list: &Vec<Reference>, place: &str) -> (r: bool)
    ensures
        r == refers_to(reference_views(list@), place@),
{
    let ghost all = reference_views(list@);
    let mut i: usize = 0;
    while i < list.len()
        invariant
            i <= list@.len(),
            all == reference_views(list@),
            forall|j: int| 0 <= j < i ==> !same_place((#[trigger] all[j]).resolved, place@),
        decreases list.len() - i,
    {
        assert(all[i as int] == list@[i as int]@);
        if same_path(list[i].resolved.as_str(), place) {
            return true;
        }
        i = i + 1;
    }
    false
}

/// Every file that `text` cites and that is there, in the order it cites them.
/// `present` are the host paths that are files.
pub fn in_reply(text: &str, root: &Option<String>, present: &Vec<String>) -> (r: Vec<Reference>)
    ensures
        reference_views(r@) == references_from(citations(text@), view_of(*root), present@),
{
    let cited = candidates(text);
    let ghost all = citations(text@);
    let ghost at = view_of(*root);
    let mut r: Vec<Reference> = Vec::new();
    let mut i: usize = 0;
    assert(all.take(0) =~= Seq::<Seq<char>>::empty());
    assert(reference_views(r@) =~= Seq::<ReferenceView>::empty());
    assert(views(cited@).len() == cited@.len());
    while i < cited.len()
        invariant
            i <= cited@.len(),
            views(cited@) == all,
            at == view_of(*root),
            all.len() == cited@.len(),
            reference_views(r@) == references_from(all.take(i as int), at, present@),
        decreases cited.len() - i,
    {
        proof {
            assert(all.take(i + 1).drop_last() =~= all.take(i as int));
            assert(all.take(i + 1).last() == cited@[i as int]@);
        }
        let ghost had = reference_views(r@);
        let (named, line) = split_location(cited[i].as_str());
        let mut found: Option<String> = None;
        if let Some(path) = path_like(named.as_str()) {
            if let Some(place) = place_of(root, path.as_str()) {
                if contains_text(present, place.as_str()) {
                    found = Some(place);
                }
            }
        }
        assert(view_of(found) == cited_file(cited@[i as int]@, at, present@));
        if let Some(place) = found {
            if !already(&r, place.as_str()) {
                r.push(Reference { reported: cited[i].clone(), line, resolved: place });
                assert(reference_views(r@) =~= had.push(r@.last()@));
            }
        }
        i = i + 1;
    }
    assert(all.take(all.len() as int) =~= all);
    r
}

/// No file is referred to twice.
pub proof fn law_a_file_is_referred_to_once(
    cited: Seq<Seq<char>>,
    root: Option<Seq<char>>,
    present: Seq<String>,
)
    ensures
        forall|i: int, j: int|
            0 <= i < j < references_from(cited, root, present).len() ==> !same_place(
                (#[trigger] references_from(cited, root, present)[i]).resolved,
                (#[trigger] references_from(cited, root, present)[j]).resolved,
            ),
    decreases cited.len(),
{
    if cited.len() > 0 {
        law_a_file_is_referred_to_once(cited.drop_last(), root, present);
    }
}

/// The open list of references and the selected row. There is always a row to
/// select.
#[derive(Debug, PartialEq, Eq)]
pub struct References {
    pub references: Vec<Reference>,
    pub selected: usize,
}

impl References {
    /// The selection is on a row.
    pub open spec fn wf(self) -> bool {
        self.selected < self.references@.len()
    }

    /// With the next row selected, where there is one.
    pub open spec fn down(self) -> References {
        References {
            selected: if self.selected + 1 < self.references@.len() {
                (self.selected + 1) as usize
            } else {
                self.selected
            },
            ..self
        }
    }

    /// With the row before selected, where there is one.
    pub open spec fn up(self) -> References {
        References {
            selected: if self.selected > 0 {
                (self.selected - 1) as usize
            } else {
                0
            },
            ..self
        }
    }

    /// With the last row selected.
    pub open spec fn bottom(self) -> References {
        References { selected: (self.references@.len() - 1) as usize, ..self }
    }

    /// A list of these references, on the first. There is none without
    /// references.
    pub fn new(references: Vec<Reference>) -> (r: Option<References>)
        ensures
            match r {
                Some(list) => references@.len() > 0 && list == (References {
                    references,
                    selected: 0,
                }) && list.wf(),
                None => references@.len() == 0,
            },
    {
        if references.len() == 0 {
            None
        } else {
            Some(References { references, selected: 0 })
        }
    }

    pub fn items(&self) -> (r: &[Reference])
        ensures
            r@ == self.references@,
    {
        self.references.as_slice()
    }

    pub fn selected_index(&self) -> (r: usize)
        ensures
            r == self.selected,
    {
        self.selected
    }

    pub fn selected(&self) -> (r: &Reference)
        requires
            self.wf(),
        ensures
            *r == self.references@[self.selected as int],
    {
        &self.references[self.selected]
    }

    pub fn select_next(&mut self)
        requires
            old(self).wf(),
        ensures
            *final(self) == old(self).down(),
            final(self).wf(),
    {
        let last: usize = self.references.len() - 1;
        if self.selected < last {
            self.selected = self.selected + 1;
        }
    }

    pub fn select_prev(&mut self)
        requires
            old(self).wf(),
        ensures
            *final(self) == old(self).up(),
            final(self).wf(),
    {
        self.selected = self.selected.saturating_sub(1);
    }

    pub fn select_first(&mut self)
        requires
            old(self).wf(),
        ensures
            *final(self) == (References { selected: 0, ..*old(self) }),
            final(self).wf(),
    {
        self.selected = 0;
    }

    pub fn select_last(&mut self)
        requires
            old(self).wf(),
        ensures
            *final(self) == old(self).bottom(),
            final(self).wf(),
    {
        self.selected = self.references.len() - 1;
    }
}

} // verus!
