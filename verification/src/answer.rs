//! The last turn's typed answer, and the row selected in it.

use vstd::prelude::*;

use crate::json::{pretty_json, value_view, write_pretty};
use crate::protocol::{Answer, AnswerValue, FileLocation};
use crate::text::{decimal, number, view_of};

verus! {

/// The fetched answer, or why there is none, and the selected row.
#[derive(Debug, PartialEq, Eq)]
pub struct AnswerView {
    pub answer: Option<Answer>,
    pub error: Option<String>,
    pub selected: usize,
}

impl Default for AnswerView {
    fn default() -> (r: AnswerView)
        ensures
            r == (AnswerView { answer: None, error: None, selected: 0 }),
    {
        AnswerView { answer: None, error: None, selected: 0 }
    }
}

/// A location as it is written: the path, then the line and the column where
/// they are known.
pub open spec fn located(location: FileLocation) -> Seq<char> {
    match (location.line, location.column) {
        (Some(line), Some(column)) => location.path@ + ":"@ + decimal(line as nat) + ":"@
            + decimal(column as nat),
        (Some(line), None) => location.path@ + ":"@ + decimal(line as nat),
        _ => location.path@,
    }
}

impl FileLocation {
    /// The path, then the line and the column where they are known.
    pub fn located(&self) -> (r: String)
        ensures
            r@ == located(*self),
    {
        let mut r = self.path.clone();
        if let Some(line) = self.line {
            r.append(":");
            r.append(number(line as u64).as_str());
            if let Some(column) = self.column {
                r.append(":");
                r.append(number(column as u64).as_str());
            }
        }
        r
    }
}

impl AnswerView {
    /// How many rows an answer has. Prose and JSON are read, not walked
    /// through.
    pub open spec fn row_count(self) -> nat {
        match self.answer {
            Some(answer) => match answer.value {
                Some(AnswerValue::Lines(lines)) => lines@.len(),
                Some(AnswerValue::Files(files)) => files@.len(),
                _ => 0,
            },
            None => 0,
        }
    }

    /// The selection is on a row where there is one.
    pub open spec fn wf(self) -> bool {
        self.selected == 0 || self.selected < self.row_count()
    }

    /// The last row, or zero where there is none.
    pub open spec fn last_row(self) -> usize {
        if self.row_count() == 0 {
            0
        } else {
            (self.row_count() - 1) as usize
        }
    }

    /// On the next row, where there is one.
    pub open spec fn next(self) -> AnswerView {
        AnswerView {
            selected: if self.selected < self.last_row() {
                (self.selected + 1) as usize
            } else {
                self.last_row()
            },
            ..self
        }
    }

    /// On the row before, where there is one.
    pub open spec fn prev(self) -> AnswerView {
        AnswerView {
            selected: if self.selected > 0 {
                (self.selected - 1) as usize
            } else {
                0
            },
            ..self
        }
    }

    /// The selected file.
    pub open spec fn file(self) -> Option<FileLocation> {
        match self.answer {
            Some(answer) => match answer.value {
                Some(AnswerValue::Files(files)) => if self.selected < files@.len() {
                    Some(files@[self.selected as int])
                } else {
                    None
                },
                _ => None,
            },
            None => None,
        }
    }

    /// Record a fetched answer, or why there is none. The selection returns to
    /// the first row.
    pub fn set(&mut self, answer: Result<Answer, String>)
        ensures
            *final(self) == match answer {
                Ok(answer) => AnswerView { answer: Some(answer), error: None, selected: 0 },
                Err(error) => AnswerView { answer: None, error: Some(error), selected: 0 },
            },
            final(self).wf(),
    {
        self.selected = 0;
        match answer {
            Ok(answer) => {
                self.answer = Some(answer);
                self.error = None;
            },
            Err(error) => {
                self.answer = None;
                self.error = Some(error);
            },
        }
    }

    pub fn answer(&self) -> (r: Option<&Answer>)
        ensures
            match r {
                Some(answer) => self.answer == Some(*answer),
                None => self.answer is None,
            },
    {
        self.answer.as_ref()
    }

    pub fn error(&self) -> (r: Option<&str>)
        ensures
            match r {
                Some(error) => view_of(self.error) == Some(error@),
                None => self.error is None,
            },
    {
        match &self.error {
            Some(error) => Some(error.as_str()),
            None => None,
        }
    }

    pub fn selected_index(&self) -> (r: usize)
        ensures
            r == self.selected,
    {
        self.selected
    }

    /// How many rows can be selected.
    pub fn rows(&self) -> (r: usize)
        ensures
            r == self.row_count(),
    {
        match &self.answer {
            Some(answer) => match &answer.value {
                Some(AnswerValue::Lines(lines)) => lines.len(),
                Some(AnswerValue::Files(files)) => files.len(),
                _ => 0,
            },
            None => 0,
        }
    }

    pub fn select_next(&mut self)
        ensures
            *final(self) == old(self).next(),
            final(self).wf(),
    {
        let last: usize = self.rows().saturating_sub(1);
        self.selected = if self.selected < last {
            self.selected + 1
        } else {
            last
        };
    }

    pub fn select_prev(&mut self)
        ensures
            *final(self) == old(self).prev(),
            old(self).wf() ==> final(self).wf(),
    {
        self.selected = self.selected.saturating_sub(1);
    }

    pub fn select_first(&mut self)
        ensures
            *final(self) == (AnswerView { selected: 0, ..*old(self) }),
            final(self).wf(),
    {
        self.selected = 0;
    }

    pub fn select_last(&mut self)
        ensures
            *final(self) == (AnswerView { selected: old(self).last_row(), ..*old(self) }),
            final(self).wf(),
    {
        self.selected = self.rows().saturating_sub(1);
    }

    /// The file the selection is on, where the answer is a list of files.
    pub fn selected_file(&self) -> (r: Option<&FileLocation>)
        ensures
            match r {
                Some(file) => self.file() == Some(*file),
                None => self.file() is None,
            },
    {
        match &self.answer {
            Some(answer) => match &answer.value {
                Some(AnswerValue::Files(files)) => if self.selected < files.len() {
                    Some(&files[self.selected])
                } else {
                    None
                },
                _ => None,
            },
            None => None,
        }
    }

    /// What copying the answer copies: the selected row of a list, the whole
    /// of prose or JSON, and the reply itself where it was not understood.
    pub open spec fn copied(self) -> Option<Seq<char>> {
        match self.answer {
            None => None,
            Some(answer) => match answer.value {
                Some(AnswerValue::Lines(lines)) => if self.selected < lines@.len() {
                    Some(lines@[self.selected as int]@)
                } else {
                    None
                },
                Some(AnswerValue::Files(_)) => match self.file() {
                    Some(file) => Some(located(file)),
                    None => None,
                },
                Some(AnswerValue::Text(text)) => Some(text@),
                Some(AnswerValue::Json(json)) => pretty_json(value_view(json)),
                None => Some(answer.source@),
            },
        }
    }

    /// The text that copying the answer copies.
    pub fn copy_text(&self) -> (r: Option<String>)
        ensures
            view_of(r) == self.copied(),
    {
        match &self.answer {
            None => None,
            Some(answer) => match &answer.value {
                Some(AnswerValue::Lines(lines)) => if self.selected < lines.len() {
                    Some(lines[self.selected].clone())
                } else {
                    None
                },
                Some(AnswerValue::Files(_)) => match self.selected_file() {
                    Some(file) => Some(file.located()),
                    None => None,
                },
                Some(AnswerValue::Text(text)) => Some(text.clone()),
                Some(AnswerValue::Json(json)) => write_pretty(json),
                None => Some(answer.source.clone()),
            },
        }
    }
}

} // verus!
