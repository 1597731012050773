//! The message being typed, and the ones already sent.

use vstd::prelude::*;

use crate::text::{
    chars_of, end_without_space, is_space, space, text_range, trim, trimmed, trimmed_end, views,
};

verus! {

/// The message buffer and the history of sent messages.
#[derive(Debug, PartialEq, Eq)]
pub struct Composer {
    /// What is in the message box.
    pub text: String,
    /// The messages already sent, oldest first.
    pub history: Vec<String>,
    /// How far back through the history the operator has walked, if at all.
    pub cursor: Option<usize>,
    /// The message set aside while walking back.
    pub draft: String,
}

#[verifier::ext_equal]
pub ghost struct ComposerView {
    pub text: Seq<char>,
    pub history: Seq<Seq<char>>,
    pub cursor: Option<nat>,
    pub draft: Seq<char>,
}

impl View for Composer {
    type V = ComposerView;

    open spec fn view(&self) -> ComposerView {
        ComposerView {
            text: self.text@,
            history: views(self.history@),
            cursor: match self.cursor {
                Some(i) => Some(i as nat),
                None => None,
            },
            draft: self.draft@,
        }
    }
}

/// `s` up to and with its last white space character.
pub open spec fn up_to_last_space(s: Seq<char>) -> Seq<char>
    decreases s.len(),
{
    if s.len() == 0 || is_space(s.last()) {
        s
    } else {
        up_to_last_space(s.drop_last())
    }
}

/// `s` without its last word and the white space behind it.
pub open spec fn without_last_word(s: Seq<char>) -> Seq<char> {
    up_to_last_space(trimmed_end(s))
}

impl ComposerView {
    /// An empty box that nothing was sent from.
    pub open spec fn empty() -> ComposerView {
        ComposerView {
            text: Seq::empty(),
            history: Seq::empty(),
            cursor: None,
            draft: Seq::empty(),
        }
    }

    /// The place in the history, where there is one, is on a sent message.
    pub open spec fn wf(self) -> bool {
        self.cursor matches Some(i) ==> i < self.history.len()
    }

    /// Holding `text`, with no walk through the history going on.
    pub open spec fn edited(self, text: Seq<char>) -> ComposerView {
        ComposerView { text, cursor: None, draft: Seq::empty(), ..self }
    }

    /// One message back in the history.
    pub open spec fn previous(self) -> ComposerView {
        if self.history.len() == 0 {
            self
        } else {
            match self.cursor {
                Some(i) => {
                    let at = if i > 0 {
                        (i - 1) as nat
                    } else {
                        0
                    };
                    ComposerView { cursor: Some(at), text: self.history[at as int], ..self }
                },
                None => ComposerView {
                    draft: self.text,
                    cursor: Some((self.history.len() - 1) as nat),
                    text: self.history.last(),
                    ..self
                },
            }
        }
    }

    /// One message forward in the history, and past its end back to the
    /// message set aside.
    pub open spec fn next(self) -> ComposerView {
        match self.cursor {
            Some(i) => if i + 1 < self.history.len() {
                ComposerView { cursor: Some(i + 1), text: self.history[i as int + 1], ..self }
            } else {
                ComposerView { cursor: None, text: self.draft, draft: Seq::empty(), ..self }
            },
            None => self,
        }
    }

    /// After the message was taken for sending.
    pub open spec fn taken(self) -> ComposerView {
        let message = trimmed(self.text);
        if message.len() == 0 {
            ComposerView { text: Seq::empty(), ..self }
        } else {
            ComposerView {
                text: Seq::empty(),
                history: self.history.push(message),
                cursor: None,
                draft: Seq::empty(),
            }
        }
    }

    /// `n` messages back in the history.
    pub open spec fn back(self, n: nat) -> ComposerView
        decreases n,
    {
        if n == 0 {
            self
        } else {
            self.back((n - 1) as nat).previous()
        }
    }

    /// `n` messages forward in the history.
    pub open spec fn forward(self, n: nat) -> ComposerView
        decreases n,
    {
        if n == 0 {
            self
        } else {
            self.next().forward((n - 1) as nat)
        }
    }
}

proof fn lemma_back(c: ComposerView, n: nat)
    requires
        c.cursor is None,
        0 < n <= c.history.len(),
    ensures
        c.back(n) == (ComposerView {
            cursor: Some((c.history.len() - n) as nat),
            text: c.history[c.history.len() - n],
            draft: c.text,
            ..c
        }),
    decreases n,
{
    if n > 1 {
        lemma_back(c, (n - 1) as nat);
    } else {
        assert(c.back(0) == c);
    }
}

proof fn lemma_forward(c: ComposerView, n: nat)
    requires
        c.cursor == Some((c.history.len() - n) as nat),
        0 < n <= c.history.len(),
    ensures
        c.forward(n) == (ComposerView {
            cursor: None,
            text: c.draft,
            draft: Seq::empty(),
            ..c
        }),
    decreases n,
{
    if n > 1 {
        lemma_forward(c.next(), (n - 1) as nat);
    } else {
        assert(c.next().forward(0) == c.next());
    }
}

/// Walking back through any number of sent messages and forward through as
/// many returns to the message that was being typed.
pub proof fn law_walking_back_returns_to_the_draft(c: ComposerView, n: nat)
    requires
        c.cursor is None,
        n <= c.history.len(),
    ensures
        c.back(n).forward(n).text == c.text,
        c.back(n).forward(n).cursor is None,
        c.back(n).forward(n).history == c.history,
{
    if n > 0 {
        lemma_back(c, n);
        lemma_forward(c.back(n), n);
    }
}

/// Walking back from the oldest message stays on it.
pub proof fn law_the_oldest_message_is_the_end(c: ComposerView)
    requires
        c.cursor == Some(0nat),
        c.history.len() > 0,
        c.text == c.history[0],
    ensures
        c.previous() == c,
{
}

impl Default for Composer {
    fn default() -> (r: Composer)
        ensures
            r@ == ComposerView::empty(),
    {
        let r = Composer {
            text: String::new(),
            history: Vec::new(),
            cursor: None,
            draft: String::new(),
        };
        assert(r@ =~= ComposerView::empty());
        r
    }
}

impl Composer {
    /// Put `text` in the box in place of what is there.
    pub fn set(&mut self, text: String)
        ensures
            final(self)@ == old(self)@.edited(text@),
    {
        self.text = text;
        self.reset_history();
    }

    pub fn char(&mut self, ch: char)
        ensures
            final(self)@ == old(self)@.edited(old(self).text@.push(ch)),
    {
        self.reset_history();
        self.text.push(ch);
    }

    /// Put `text` behind what is in the box.
    pub fn insert(&mut self, text: &str)
        ensures
            final(self)@ == old(self)@.edited(old(self).text@ + text@),
    {
        self.reset_history();
        self.text.append(text);
    }

    pub fn backspace(&mut self)
        ensures
            final(self)@ == old(self)@.edited(
                if old(self).text@.len() > 0 {
                    old(self).text@.drop_last()
                } else {
                    old(self).text@
                },
            ),
    {
        self.reset_history();
        drop_last_char(&mut self.text);
    }

    /// Delete the last word: the white space behind it, then back to the white
    /// space before it.
    pub fn delete_word(&mut self)
        ensures
            final(self)@ == old(self)@.edited(without_last_word(old(self).text@)),
    {
        self.reset_history();
        let v = chars_of(self.text.as_str());
        let mut end = end_without_space(&v, 0, v.len());
        let ghost trimmed_text = v@.subrange(0, end as int);
        assert(v@.subrange(0, v@.len() as int) =~= v@);
        while end > 0 && !space(v[end - 1])
            invariant
                end <= v@.len(),
                up_to_last_space(v@.subrange(0, end as int)) == up_to_last_space(trimmed_text),
            decreases end,
        {
            assert(v@.subrange(0, end as int).drop_last() =~= v@.subrange(0, end - 1));
            end = end - 1;
        }
        assert(end > 0 ==> v@.subrange(0, end as int).last() == v@[end - 1]);
        self.text = text_range(&v, 0, end);
    }

    pub fn newline(&mut self)
        ensures
            final(self)@ == old(self)@.edited(old(self).text@.push('\n')),
    {
        self.reset_history();
        self.text.push('\n');
    }

    /// Recall the sent message before this one, setting aside what was being
    /// typed.
    pub fn history_previous(&mut self)
        requires
            old(self)@.wf(),
        ensures
            final(self)@ == old(self)@.previous(),
            final(self)@.wf(),
    {
        let ghost before = self@;
        let count: usize = self.history.len();
        if count == 0 {
            return ;
        }
        let at: usize = match self.cursor {
            Some(index) => index.saturating_sub(1),
            None => {
                self.draft = self.text.clone();
                count - 1
            },
        };
        self.cursor = Some(at);
        self.text = self.history[at].clone();
        assert(before.history[at as int] == self.history@[at as int]@);
        assert(self@ =~= before.previous());
    }

    /// Return to the sent message after this one, or to what was being typed.
    pub fn history_next(&mut self)
        requires
            old(self)@.wf(),
        ensures
            final(self)@ == old(self)@.next(),
            final(self)@.wf(),
    {
        let ghost before = self@;
        if let Some(index) = self.cursor {
            if index < self.history.len() - 1 {
                let at: usize = index + 1;
                self.cursor = Some(at);
                self.text = self.history[at].clone();
                assert(before.history[at as int] == self.history@[at as int]@);
            } else {
                self.cursor = None;
                self.text = self.draft.clone();
                self.draft = String::new();
            }
            assert(self@ =~= before.next());
        }
    }

    fn reset_history(&mut self)
        ensures
            final(self)@ == old(self)@.edited(old(self).text@),
            final(self).text == old(self).text,
    {
        self.cursor = None;
        self.draft = String::new();
        assert(self@ =~= old(self)@.edited(old(self).text@));
    }

    /// Take the message for sending, without white space at its ends, and
    /// empty the box. A box with nothing but white space has no message.
    pub fn take(&mut self) -> (r: Option<String>)
        ensures
            final(self)@ == old(self)@.taken(),
            match r {
                Some(message) => message@ == trimmed(old(self).text@) && message@.len() > 0,
                None => trimmed(old(self).text@).len() == 0,
            },
    {
        let message = trim(self.text.as_str());
        self.text = String::new();
        if message.as_str().is_empty() {
            assert(self@ =~= old(self)@.taken());
            return None;
        }
        self.history.push(message.clone());
        self.reset_history();
        assert(self@ =~= old(self)@.taken());
        Some(message)
    }
}

/// Remove the last character of a text, where there is one.
pub fn drop_last_char(text: &mut String)
    ensures
        final(text)@ == if old(text)@.len() > 0 {
            old(text)@.drop_last()
        } else {
            old(text)@
        },
{
    let v = chars_of(text.as_str());
    if v.len() > 0 {
        *text = text_range(&v, 0, v.len() - 1);
        assert(text@ =~= v@.drop_last());
    }
}

} // verus!
