//! Putting a host path into a message, and granting it where the sandbox
//! cannot see it.

use vstd::prelude::*;

use crate::composer::drop_last_char;
use crate::key::{Key, KeyCode};
use crate::mount::{
    access_of, carried, expand_home, home_expanded, innermost, visibility, };
use crate::path::{is_absolute, join, rooted, under};
use crate::protocol::{LaunchMount, Mount};
use crate::text::{
    chars_of, control, is_control, same, starts, text_range, trim, trimmed,
    view_of, };

verus! {

/// Which of the prompt's two questions is open.
#[derive(Debug, PartialEq, Eq)]
pub enum Insert {
    /// A path is being typed.
    Typing(String),
    /// No mount carries the path; on what terms is it to be granted?
    Grant(String),
}

/// The open prompt, and what its answers are held against.
#[derive(Debug, PartialEq, Eq)]
pub struct Prompt {
    pub state: Insert,
    /// What a relative path is relative to.
    pub base: Option<String>,
    /// The mounts of the sandbox, where one is known.
    pub mounts: Option<Vec<Mount>>,
    /// Whether a path can still be granted.
    pub can_grant: bool,
}

/// What a key decided.
#[derive(Debug, PartialEq, Eq)]
pub enum Outcome {
    /// Nothing yet.
    Open,
    /// Close, with nothing to insert.
    Closed,
    /// Put the path into the message, and say the notice.
    Insert { path: String, notice: Option<String> },
    /// Ask for the mount, then put the path into the message.
    Grant { mount: LaunchMount, path: String },
    /// Say this, and leave the prompt open.
    Notice(String),
    /// Find out what this path really is, and answer with
    /// [`Prompt::resolved`].
    Resolve(String),
    /// List this directory, and answer with [`Prompt::listed`].
    List(String),
}

/// The path that a typed text asks for, or what is wrong with it.
pub open spec fn path_asked(
    base: Option<Seq<char>>,
    text: Seq<char>,
    home: Option<Seq<char>>,
) -> Result<Seq<char>, Seq<char>> {
    let path = home_expanded(trimmed(text), home);
    if trimmed(text).len() == 0 {
        Err("give a path to insert"@)
    } else if rooted(path) {
        Ok(path)
    } else {
        match base {
            Some(base) => Ok(under(base, path)),
            None => Err(path + " must be an absolute path"@),
        }
    }
}

/// The absolute path that a typed text asks for, or what is wrong with it.
pub fn resolve(base: &Option<String>, text: &str, home: &Option<String>) -> (r: Result<
    String,
    String,
>)
    ensures
        match r {
            Ok(path) => path_asked(view_of(*base), text@, view_of(*home)) is Ok && path_asked(
                view_of(*base),
                text@,
                view_of(*home),
            )->Ok_0 == path@,
            Err(problem) => path_asked(view_of(*base), text@, view_of(*home)) is Err && path_asked(
                view_of(*base),
                text@,
                view_of(*home),
            )->Err_0 == problem@,
        },
{
    let typed = trim(text);
    if typed.as_str().is_empty() {
        return Err("give a path to insert".to_owned());
    }
    let path = expand_home(typed.as_str(), home);
    if is_absolute(path.as_str()) {
        return Ok(path);
    }
    match base {
        Some(base) => Ok(join(base.as_str(), path.as_str())),
        None => Err(path.concat(" must be an absolute path")),
    }
}

// --- Completion --------------------------------------------------------------

/// The directory part of a typed path: everything up to and with its last `/`.
pub open spec fn typed_directory(text: Seq<char>) -> Seq<char>
    decreases text.len(),
{
    if text.len() == 0 || text.last() == '/' {
        text
    } else {
        typed_directory(text.drop_last())
    }
}

/// The name part of a typed path: everything behind its last `/`.
pub open spec fn typed_name(text: Seq<char>) -> Seq<char> {
    text.skip(typed_directory(text).len() as int)
}

proof fn lemma_typed_directory(text: Seq<char>)
    ensures
        typed_directory(text).len() <= text.len(),
        typed_directory(text) == text.take(typed_directory(text).len() as int),
        typed_directory(text) + typed_name(text) == text,
    decreases text.len(),
{
    if text.len() > 0 && text.last() != '/' {
        lemma_typed_directory(text.drop_last());
        let n = typed_directory(text).len() as int;
        assert(text.drop_last().take(n) =~= text.take(n));
    } else {
        assert(text.take(text.len() as int) =~= text);
    }
    assert(typed_directory(text) + typed_name(text) =~= text);
}

fn directory_end(v: &Vec<char>) -> (n: usize)
    ensures
        n == typed_directory(v@).len(),
        n <= v@.len(),
        v@.take(n as int) == typed_directory(v@),
{
    let mut n: usize = v.len();
    assert(v@.take(n as int) =~= v@);
    while n > 0 && v[n - 1] != '/'
        invariant
            n <= v@.len(),
            typed_directory(v@.take(n as int)) == typed_directory(v@),
        decreases n,
    {
        assert(v@.take(n as int).drop_last() =~= v@.take(n - 1));
        n = n - 1;
    }
    assert(n > 0 ==> v@.take(n as int).last() == v@[n - 1]);
    n
}

/// The directory whose entries complete a typed path, where it is known.
pub open spec fn listing_for(
    base: Option<Seq<char>>,
    text: Seq<char>,
    home: Option<Seq<char>>,
) -> Option<Seq<char>> {
    let directory = home_expanded(typed_directory(text), home);
    if typed_directory(text).len() > 0 && rooted(directory) {
        Some(directory)
    } else {
        match base {
            Some(base) => Some(
                if typed_directory(text).len() == 0 {
                    base
                } else {
                    under(base, directory)
                },
            ),
            None => None,
        }
    }
}

/// The directory whose entries complete a typed path, where it is known.
pub fn completion_directory(base: &Option<String>, text: &str, home: &Option<String>) -> (r: Option<
    String,
>)
    ensures
        view_of(r) == listing_for(view_of(*base), text@, view_of(*home)),
{
    let v = chars_of(text);
    let n = directory_end(&v);
    let typed = text_range(&v, 0, n);
    assert(typed@ =~= v@.take(n as int));
    if n == 0 {
        return base.clone();
    }
    let directory = expand_home(typed.as_str(), home);
    if is_absolute(directory.as_str()) {
        return Some(directory);
    }
    match base {
        Some(base) => Some(join(base.as_str(), directory.as_str())),
        None => None,
    }
}

/// An entry of a listed directory: its name, and whether it is a directory.
#[derive(Debug, PartialEq, Eq)]
pub struct Listed {
    pub name: String,
    pub directory: bool,
}

/// The entries whose names start with `prefix`.
pub open spec fn candidates(entries: Seq<Listed>, prefix: Seq<char>) -> Seq<Listed> {
    entries.filter(|e: Listed| starts(e.name@, prefix))
}

/// Whether all the names agree on their first `n` characters.
pub open spec fn agree(entries: Seq<Listed>, n: nat) -> bool {
    forall|i: int|
        0 <= i < entries.len() ==> n <= (#[trigger] entries[i]).name@.len()
            && entries[i].name@.take(n as int) == entries[0].name@.take(n as int)
}

/// The longest agreement of the names that is at least `n`.
pub open spec fn agreement_from(entries: Seq<Listed>, n: nat) -> nat
    decreases entries[0].name@.len() - n,
{
    if entries.len() > 0 && n < entries[0].name@.len() && agree(entries, n + 1) {
        agreement_from(entries, n + 1)
    } else {
        n
    }
}

/// What all the names start with.
pub open spec fn shared_start(entries: Seq<Listed>) -> Seq<char> {
    entries[0].name@.take(agreement_from(entries, 0) as int)
}

/// A typed path extended by what all its candidates share, and by a `/` where
/// there is one candidate and it is a directory. Nothing where that adds
/// nothing.
pub open spec fn completion(text: Seq<char>, entries: Seq<Listed>) -> Option<Seq<char>> {
    let found = candidates(entries, typed_name(text));
    if found.len() == 0 {
        None
    } else {
        let single = found.len() == 1 && found[0].directory;
        let shared = shared_start(found);
        let extended = typed_directory(text) + shared;
        let completed = if single {
            extended.push('/')
        } else {
            extended
        };
        if completed == text {
            None
        } else {
            Some(completed)
        }
    }
}

proof fn lemma_agreement(entries: Seq<Listed>, from: nat, n: nat)
    requires
        entries.len() > 0,
        from <= n <= entries[0].name@.len(),
        agree(entries, n),
        n == entries[0].name@.len() || !agree(entries, n + 1),
    ensures
        agreement_from(entries, from) == n,
    decreases n - from,
{
    if from < n {
        assert(agree(entries, from + 1)) by {
            assert forall|i: int| 0 <= i < entries.len() implies from + 1 <= (
            #[trigger] entries[i]).name@.len() && entries[i].name@.take((from + 1) as int)
                == entries[0].name@.take((from + 1) as int) by {
                assert(entries[i].name@.take(n as int).take((from + 1) as int)
                    =~= entries[i].name@.take((from + 1) as int));
                assert(entries[0].name@.take(n as int).take((from + 1) as int)
                    =~= entries[0].name@.take((from + 1) as int));
            }
        }
        lemma_agreement(entries, from + 1, n);
    }
}

/// How far two texts are the same, no further than `limit`.
fn common(a: &Vec<char>, b: &Vec<char>, limit: usize) -> (n: usize)
    requires
        limit <= a@.len(),
    ensures
        n <= limit,
        n <= b@.len(),
        b@.take(n as int) == a@.take(n as int),
        n == limit || n == b@.len() || a@[n as int] != b@[n as int],
{
    let mut n: usize = 0;
    assert(b@.take(0) =~= a@.take(0));
    while n < limit && n < b.len() && a[n] == b[n]
        invariant
            n <= limit <= a@.len(),
            n <= b@.len(),
            b@.take(n as int) == a@.take(n as int),
        decreases limit - n,
    {
        assert(b@.take(n + 1) =~= b@.take(n as int).push(b@[n as int]));
        assert(a@.take(n + 1) =~= a@.take(n as int).push(a@[n as int]));
        n = n + 1;
    }
    n
}

/// Extend a typed path by what all the entries that it can mean share.
pub fn complete(text: &str, entries: &Vec<Listed>) -> (r: Option<String>)
    ensures
        view_of(r) == completion(text@, entries@),
{
    let v = chars_of(text);
    let split = directory_end(&v);
    let directory = text_range(&v, 0, split);
    let prefix = text_range(&v, split, v.len());
    proof {
        lemma_typed_directory(text@);
        assert(directory@ =~= typed_directory(text@));
        assert(prefix@ =~= typed_name(text@));
    }
    let ghost keeps = |e: Listed| starts(e.name@, prefix@);
    let ghost mut found: Seq<Listed> = Seq::empty();
    let mut first: Vec<char> = Vec::new();
    let mut agreed: usize = 0;
    let mut count: usize = 0;
    let mut first_is_directory = false;
    let mut i: usize = 0;
    proof {
        assert(entries@.take(0) =~= Seq::<Listed>::empty());
        reveal_with_fuel(Seq::filter, 1);
    }
    while i < entries.len()
        invariant
            i <= entries@.len(),
            count <= i,
            keeps == (|e: Listed| starts(e.name@, prefix@)),
            found == entries@.take(i as int).filter(keeps),
            count == found.len(),
            count > 0 ==> {
                &&& first@ == found[0].name@
                &&& first_is_directory == found[0].directory
                &&& agreed <= first@.len()
                &&& agree(found, agreed as nat)
                &&& agreed == first@.len() || !agree(found, (agreed + 1) as nat)
            },
        decreases entries.len() - i,
    {
        let name = entries[i].name.as_str();
        let ghost before = found;
        proof {
            assert(entries@.take(i + 1).drop_last() =~= entries@.take(i as int));
            assert(entries@.take(i + 1).last() == entries@[i as int]);
            reveal_with_fuel(Seq::filter, 1);
        }
        if crate::text::starts_with(name, prefix.as_str()) {
            let letters = chars_of(name);
            proof {
                found = before.push(entries@[i as int]);
            }
            if count == 0 {
                first_is_directory = entries[i].directory;
                agreed = letters.len();
                first = letters;
                proof {
                    assert(found[0] == entries@[i as int]);
                }
            } else {
                let n = common(&first, &letters, agreed);
                proof {
                    assert(agree(found, n as nat)) by {
                        assert forall|k: int| 0 <= k < found.len() implies n <= (
                        #[trigger] found[k]).name@.len() && found[k].name@.take(n as int)
                            == found[0].name@.take(n as int) by {
                            if k < before.len() {
                                assert(found[k] == before[k]);
                                assert(found[0] == before[0]);
                                assert(before[k].name@.take(agreed as int).take(n as int)
                                    =~= before[k].name@.take(n as int));
                                assert(before[0].name@.take(agreed as int).take(n as int)
                                    =~= before[0].name@.take(n as int));
                            }
                        }
                    }
                    assert(found[0] == before[0]);
                    if n < first@.len() && agree(found, (n + 1) as nat) {
                        let last = found[before.len() as int];
                        assert(last.name@ == letters@);
                        assert(n + 1 <= letters@.len());
                        assert(letters@.take(n + 1)[n as int] == letters@[n as int]);
                        assert(first@.take(n + 1)[n as int] == first@[n as int]);
                        if n == agreed {
                            assert(agree(before, (n + 1) as nat)) by {
                                assert forall|k: int| 0 <= k < before.len() implies n + 1 <= (
                                #[trigger] before[k]).name@.len() && before[k].name@.take(n + 1)
                                    == before[0].name@.take(n + 1) by {
                                    assert(found[k] == before[k]);
                                }
                            }
                        }
                    }
                }
                agreed = n;
            }
            count = count + 1;
        }
        i = i + 1;
    }
    proof {
        assert(entries@.take(entries@.len() as int) =~= entries@);
        assert(found == candidates(entries@, typed_name(text@)));
    }
    if count == 0 {
        return None;
    }
    proof {
        lemma_agreement(found, 0, agreed as nat);
    }
    let mut completed = directory;
    let shared = text_range(&first, 0, agreed);
    assert(shared@ =~= first@.take(agreed as int));
    completed.append(shared.as_str());
    if count == 1 && first_is_directory {
        completed.push('/');
    }
    if same(completed.as_str(), text) {
        None
    } else {
        Some(completed)
    }
}

// --- The prompt --------------------------------------------------------------

/// The notice that a path went in that the sandbox cannot reach.
pub open spec fn unreachable_notice(path: Seq<char>) -> Seq<char> {
    "inserted "@ + path + " — the sandbox cannot reach it"@
}

/// The notice that a path went in through a mount.
pub open spec fn mounted_notice(path: Seq<char>, access: Seq<char>) -> Seq<char> {
    path + " ("@ + access + ")"@
}

/// What a key means while a path is typed: the text it leaves, and what it
/// asks for.
pub open spec fn typing_key(
    prompt: Prompt,
    text: Seq<char>,
    key: Key,
    home: Option<Seq<char>>,
    outcome: Outcome,
    left: Seq<char>,
) -> bool {
    match key.code {
        KeyCode::Esc => outcome is Closed && left == text,
        KeyCode::Enter => left == text && match path_asked(view_of(prompt.base), text, home) {
            Ok(path) => outcome matches Outcome::Resolve(asked) && asked@ == path,
            Err(problem) => outcome matches Outcome::Notice(said) && said@ == problem,
        },
        KeyCode::Tab => left == text && match listing_for(view_of(prompt.base), text, home) {
            Some(directory) => outcome matches Outcome::List(asked) && asked@ == directory,
            None => outcome is Open,
        },
        KeyCode::Backspace => outcome is Open && left == if text.len() > 0 {
            text.drop_last()
        } else {
            text
        },
        KeyCode::Char(ch) => outcome is Open && left == if is_control(ch) {
            text
        } else {
            text.push(ch)
        },
        _ => outcome is Open && left == text,
    }
}

/// What a key means while a grant is asked about.
pub open spec fn grant_key(host: Seq<char>, key: Key, outcome: Outcome) -> bool {
    match key.code {
        KeyCode::Char('r') => granting(host, false, outcome),
        KeyCode::Char('w') => granting(host, true, outcome),
        KeyCode::Char('n') => outcome matches Outcome::Insert { path, notice } && path@ == host
            && view_of(notice) == Some(unreachable_notice(host)),
        KeyCode::Esc => outcome is Closed,
        _ => outcome is Open,
    }
}

/// Whether an outcome grants `host` under its own name.
pub open spec fn granting(host: Seq<char>, writable: bool, outcome: Outcome) -> bool {
    outcome matches Outcome::Grant { mount, path } && path@ == host && mount.source@ == host
        && mount.destination is None && mount.writable == writable
}

/// Whether what a path really is leads the prompt to its next state and this
/// decision. A path that a mount carries goes in as the agent knows it. One
/// that none carries is asked about where it can be granted, and goes in as it
/// is where it cannot.
pub open spec fn finds(
    prompt: Prompt,
    found: Result<String, String>,
    next: Prompt,
    outcome: Outcome,
) -> bool {
    match (prompt.state, found) {
        (Insert::Grant(_), _) => outcome is Open && next == prompt,
        (_, Err(problem)) => outcome == Outcome::Notice(problem) && next == prompt,
        (_, Ok(host)) => match prompt.mounts {
            None => next == prompt && (outcome matches Outcome::Insert { path, notice }
                && path == host && view_of(notice) == Some(
                "no sandbox policy known — inserted the path as it is"@,
            )),
            Some(mounts) => if forall|i: int|
                0 <= i < mounts@.len() ==> carried(#[trigger] mounts@[i], host@) is None {
                if prompt.can_grant {
                    outcome is Open && next == (Prompt {
                        state: Insert::Grant(host),
                        ..prompt
                    })
                } else {
                    next == prompt && (outcome matches Outcome::Insert { path, notice }
                        && path == host && view_of(notice) == Some(
                        "outside the sandbox — stop the interaction to mount it (S, then d)"@,
                    ))
                }
            } else {
                next == prompt && exists|i: int|
                    #[trigger] innermost(mounts@, host@, i) && inserted_through(
                        mounts@[i],
                        host@,
                        outcome,
                    )
            },
        },
    }
}

impl Prompt {
    /// Open the prompt. `mounts` are those of the sandbox, where one is known.
    pub fn new(base: Option<String>, mounts: Option<Vec<Mount>>, can_grant: bool) -> (r: Prompt)
        ensures
            r.state matches Insert::Typing(text) && text@.len() == 0,
            r == (Prompt { state: r.state, base, mounts, can_grant }),
    {
        Prompt { state: Insert::Typing(String::new()), base, mounts, can_grant }
    }

    pub fn state(&self) -> (r: &Insert)
        ensures
            *r == self.state,
    {
        &self.state
    }

    /// Answer a key.
    pub fn key(&mut self, key: Key, home: &Option<String>) -> (r: Outcome)
        ensures
            *final(self) == (Prompt { state: final(self).state, ..*old(self) }),
            match old(self).state {
                Insert::Typing(text) => final(self).state matches Insert::Typing(left)
                    && typing_key(*old(self), text@, key, view_of(*home), r, left@),
                Insert::Grant(host) => *final(self) == *old(self) && grant_key(host@, key, r),
            },
    {
        match &mut self.state {
            Insert::Typing(text) => match key.code {
                KeyCode::Esc => Outcome::Closed,
                KeyCode::Enter => match resolve(&self.base, text.as_str(), home) {
                    Ok(path) => Outcome::Resolve(path),
                    Err(problem) => Outcome::Notice(problem),
                },
                KeyCode::Tab => match completion_directory(&self.base, text.as_str(), home) {
                    Some(directory) => Outcome::List(directory),
                    None => Outcome::Open,
                },
                KeyCode::Backspace => {
                    drop_last_char(text);
                    Outcome::Open
                },
                KeyCode::Char(ch) => {
                    if !control(ch) {
                        text.push(ch);
                    }
                    Outcome::Open
                },
                _ => Outcome::Open,
            },
            Insert::Grant(host) => match key.code {
                KeyCode::Char('r') => grant(host.clone(), false),
                KeyCode::Char('w') => grant(host.clone(), true),
                KeyCode::Char('n') => {
                    let notice = "inserted ".to_owned().concat(host.as_str()).concat(
                        " — the sandbox cannot reach it",
                    );
                    Outcome::Insert { path: host.clone(), notice: Some(notice) }
                },
                KeyCode::Esc => Outcome::Closed,
                _ => Outcome::Open,
            },
        }
    }

    /// Take the entries of the directory that was asked for.
    pub fn listed(&mut self, entries: &Vec<Listed>)
        ensures
            *final(self) == (Prompt { state: final(self).state, ..*old(self) }),
            match old(self).state {
                Insert::Typing(text) => final(self).state matches Insert::Typing(left) && left@
                    == match completion(text@, entries@) {
                    Some(completed) => completed,
                    None => text@,
                },
                Insert::Grant(_) => *final(self) == *old(self),
            },
    {
        if let Insert::Typing(text) = &mut self.state {
            if let Some(completed) = complete(text.as_str(), entries) {
                *text = completed;
            }
        }
    }

    /// Take what the path that was asked for really is, or why it is nothing.
    /// A path that a mount carries goes in as the agent knows it. One that none
    /// carries is asked about where it can be granted, and goes in as it is
    /// where it cannot.
    pub fn resolved(&mut self, found: Result<String, String>) -> (r: Outcome)
        ensures
            finds(*old(self), found, *final(self), r),
    {
        if let Insert::Grant(_) = &self.state {
            return Outcome::Open;
        }
        let host = match found {
            Ok(host) => host,
            Err(problem) => {
                return Outcome::Notice(problem);
            },
        };
        let visible = match &self.mounts {
            None => {
                return Outcome::Insert {
                    path: host,
                    notice: Some(
                        "no sandbox policy known — inserted the path as it is".to_owned(),
                    ),
                };
            },
            Some(mounts) => visibility(mounts, host.as_str()),
        };
        match visible {
            Some(visible) => {
                let notice = visible.path.clone().concat(" (").concat(visible.access).concat(")");
                Outcome::Insert { path: visible.path, notice: Some(notice) }
            },
            None => {
                if self.can_grant {
                    self.state = Insert::Grant(host);
                    Outcome::Open
                } else {
                    Outcome::Insert {
                        path: host,
                        notice: Some(
                            "outside the sandbox — stop the interaction to mount it (S, then d)".to_owned(),
                        ),
                    }
                }
            },
        }
    }
}

/// Whether an outcome inserts `host` as it is found through `mount`.
pub open spec fn inserted_through(mount: Mount, host: Seq<char>, outcome: Outcome) -> bool {
    outcome matches Outcome::Insert { path, notice } && carried(mount, host) is Some && path@
        == under(crate::mount::destination_of(mount), carried(mount, host)->Some_0) && view_of(
        notice,
    ) == Some(mounted_notice(path@, access_of(mount)))
}

/// Grant `host` under its own name, and insert it.
fn grant(host: String, writable: bool) -> (r: Outcome)
    ensures
        granting(host@, writable, r),
{
    Outcome::Grant {
        mount: LaunchMount { source: host.clone(), destination: None, writable },
        path: host,
    }
}

/// Completing a path only adds to it: it never takes back what was typed.
pub proof fn law_completion_only_adds(text: Seq<char>, entries: Seq<Listed>)
    ensures
        completion(text, entries) matches Some(completed) ==> completed.len() > text.len()
            && starts(completed, text),
{
    let name = typed_name(text);
    let found = candidates(entries, name);
    if found.len() > 0 {
        let keeps = |e: Listed| starts(e.name@, name);
        entries.lemma_filter_pred(keeps, 0);
        assert forall|k: int| 0 <= k < found.len() implies starts(
            (#[trigger] found[k]).name@,
            name,
        ) by {
            entries.lemma_filter_pred(keeps, k);
        }
        lemma_typed_directory(text);
        assert(agree(found, name.len())) by {
            assert forall|k: int| 0 <= k < found.len() implies name.len() <= (
            #[trigger] found[k]).name@.len() && found[k].name@.take(name.len() as int)
                == found[0].name@.take(name.len() as int) by {
                assert(starts(found[k].name@, name));
                assert(starts(found[0].name@, name));
            }
        }
        lemma_agreement_reaches(found, 0, name.len());
        let shared = shared_start(found);
        assert(starts(found[0].name@, name));
        assert(shared.take(name.len() as int) =~= found[0].name@.take(name.len() as int));
        let extended = typed_directory(text) + shared;
        assert(extended.take(text.len() as int) =~= typed_directory(text) + shared.take(
            name.len() as int,
        ));
        assert(extended.take(text.len() as int) =~= text);
        assert(extended.push('/').take(text.len() as int) =~= extended.take(text.len() as int));
        if extended.len() == text.len() {
            assert(extended.take(text.len() as int) =~= extended);
        }
    }
}

proof fn lemma_agreement_reaches(entries: Seq<Listed>, from: nat, n: nat)
    requires
        entries.len() > 0,
        agree(entries, n),
        from <= n,
    ensures
        n <= agreement_from(entries, from) <= entries[0].name@.len(),
    decreases entries[0].name@.len() - from,
{
    assert(n <= entries[0].name@.len());
    if from < n {
        assert(agree(entries, from + 1)) by {
            assert forall|i: int| 0 <= i < entries.len() implies from + 1 <= (
            #[trigger] entries[i]).name@.len() && entries[i].name@.take((from + 1) as int)
                == entries[0].name@.take((from + 1) as int) by {
                assert(entries[i].name@.take(n as int).take((from + 1) as int)
                    =~= entries[i].name@.take((from + 1) as int));
                assert(entries[0].name@.take(n as int).take((from + 1) as int)
                    =~= entries[0].name@.take((from + 1) as int));
            }
        }
        lemma_agreement_reaches(entries, from + 1, n);
    } else if from < entries[0].name@.len() && agree(entries, from + 1) {
        lemma_agreement_reaches(entries, from + 1, from + 1);
    }
}

} // verus!
