//! Host paths a launch carries into its sandbox.

use vstd::prelude::*;

use crate::path::{
    ancestors, ancestry, below, depth, is_absolute, join, parts, rooted, same_path, same_place,
    strip_prefix, under,
};
use crate::protocol::{mount_views, LaunchMount, LaunchMountView, Mount, MountAccess};
use crate::text::{
    contains_text, holds, same, split_at_each, split_on, starts, strip_start, trim, trimmed, view_of,
    views,
};

verus! {

/// How an extra mount is shown.
pub open spec fn mount_label(mount: LaunchMountView) -> Seq<char> {
    let access = if mount.writable {
        "rw"@
    } else {
        "ro"@
    };
    match mount.destination {
        Some(destination) => mount.source + " → "@ + destination + " ("@ + access + ")"@,
        None => mount.source + " ("@ + access + ")"@,
    }
}

/// How an extra mount is shown: its paths and its access.
pub fn label(mount: &LaunchMount) -> (r: String)
    ensures
        r@ == mount_label(mount@),
{
    let mut r = mount.source.clone();
    if let Some(destination) = &mount.destination {
        r.append(" → ");
        r.append(destination.as_str());
    }
    r.append(" (");
    if mount.writable {
        r.append("rw");
    } else {
        r.append("ro");
    }
    r.append(")");
    r
}

/// A path with a leading `~` replaced by the home directory, where that is
/// known.
pub open spec fn home_expanded(text: Seq<char>, home: Option<Seq<char>>) -> Seq<char> {
    match (home, below(text, "~"@)) {
        (Some(home), Some(rest)) => under(home, rest),
        _ => text,
    }
}

/// Replace a leading `~` by the home directory, as a shell does.
pub fn expand_home(text: &str, home: &Option<String>) -> (r: String)
    ensures
        r@ == home_expanded(text@, view_of(*home)),
{
    match home {
        Some(home) => match strip_prefix(text, "~") {
            Some(rest) => join(home.as_str(), rest.as_str()),
            None => text.to_owned(),
        },
        None => text.to_owned(),
    }
}

/// The fields of a typed mount, without white space at their ends.
pub open spec fn mount_fields(text: Seq<char>) -> Seq<Seq<char>> {
    split_at_each(trimmed(text), ':').map_values(|f: Seq<char>| trimmed(f))
}

/// The fields that name paths: all but a last one that names the access.
pub open spec fn path_fields(text: Seq<char>) -> Seq<Seq<char>> {
    let fields = mount_fields(text);
    if fields.len() > 0 && (fields.last() == "rw"@ || fields.last() == "ro"@) {
        fields.drop_last()
    } else {
        fields
    }
}

/// The mount that a text asks for, or what is wrong with it.
pub open spec fn mount_asked(text: Seq<char>, home: Option<Seq<char>>) -> Result<
    LaunchMountView,
    Seq<char>,
> {
    let fields = path_fields(text);
    if trimmed(text).len() == 0 {
        Err("give a path to mount, e.g. /srv/data:ro"@)
    } else if fields.len() != 1 && fields.len() != 2 {
        Err("expected source[:destination][:ro|rw]"@)
    } else if fields[0].len() == 0 {
        Err("give a path to mount, e.g. /srv/data:ro"@)
    } else {
        let source = home_expanded(fields[0], home);
        let writable = mount_fields(text).last() == "rw"@;
        if !rooted(source) {
            Err(source + " must be an absolute path"@)
        } else if fields.len() == 1 {
            Ok(LaunchMountView { source, destination: None, writable })
        } else if fields[1].len() == 0 {
            Err("the destination cannot be empty"@)
        } else {
            let destination = home_expanded(fields[1], home);
            if !rooted(destination) {
                Err("the destination "@ + destination + " must be an absolute path"@)
            } else {
                Ok(LaunchMountView { source, destination: Some(destination), writable })
            }
        }
    }
}

fn trimmed_fields(text: &str) -> (r: Vec<String>)
    ensures
        views(r@) == mount_fields(text@),
        r@.len() > 0,
{
    let whole = trim(text);
    let fields = split_on(whole.as_str(), ':');
    let mut r: Vec<String> = Vec::new();
    let mut i: usize = 0;
    let ghost all = mount_fields(text@);
    assert(views(r@) =~= all.take(0));
    while i < fields.len()
        invariant
            i <= fields@.len(),
            views(fields@) == split_at_each(trimmed(text@), ':'),
            all == mount_fields(text@),
            all.len() == fields@.len(),
            views(r@) == all.take(i as int),
        decreases fields.len() - i,
    {
        let ghost had = views(r@);
        let field = trim(fields[i].as_str());
        assert(views(fields@)[i as int] == fields@[i as int]@);
        r.push(field);
        assert(views(r@) =~= had.push(field@));
        assert(all.take(i + 1) =~= all.take(i as int).push(all[i as int]));
        i = i + 1;
    }
    assert(all.take(all.len() as int) =~= all);
    assert(views(r@).len() == r@.len());
    r
}

/// Read the `source[:destination][:ro|rw]` an operator types. Access is
/// read-only unless said otherwise, and both paths must be absolute.
pub fn parse(text: &str, home: &Option<String>) -> (r: Result<LaunchMount, String>)
    ensures
        match r {
            Ok(mount) => mount_asked(text@, view_of(*home)) == Ok::<LaunchMountView, Seq<char>>(
                mount@,
            ),
            Err(problem) => mount_asked(text@, view_of(*home)) == Err::<
                LaunchMountView,
                Seq<char>,
            >(problem@),
        },
{
    if trim(text).as_str().is_empty() {
        return Err("give a path to mount, e.g. /srv/data:ro".to_owned());
    }
    let mut fields = trimmed_fields(text);
    let ghost all = views(fields@);
    let count: usize = fields.len();
    assert(all.last() == fields@[count - 1]@);
    let writable = same(fields[count - 1].as_str(), "rw");
    if writable || same(fields[count - 1].as_str(), "ro") {
        let _ = fields.pop();
        assert(views(fields@) =~= all.drop_last());
    }
    assert(views(fields@) == path_fields(text@));
    assert(views(fields@).len() == fields@.len());
    if fields.len() != 1 && fields.len() != 2 {
        return Err("expected source[:destination][:ro|rw]".to_owned());
    }
    assert(views(fields@)[0] == fields@[0]@);
    if fields[0].as_str().is_empty() {
        return Err("give a path to mount, e.g. /srv/data:ro".to_owned());
    }
    let source = expand_home(fields[0].as_str(), home);
    if !is_absolute(source.as_str()) {
        return Err(source.concat(" must be an absolute path"));
    }
    if fields.len() == 1 {
        return Ok(LaunchMount { source, destination: None, writable });
    }
    assert(views(fields@)[1] == fields@[1]@);
    if fields[1].as_str().is_empty() {
        return Err("the destination cannot be empty".to_owned());
    }
    let destination = expand_home(fields[1].as_str(), home);
    if !is_absolute(destination.as_str()) {
        return Err(
            "the destination ".to_owned().concat(destination.as_str()).concat(
                " must be an absolute path",
            ),
        );
    }
    Ok(LaunchMount { source, destination: Some(destination), writable })
}

// --- What a sandbox carries --------------------------------------------------

/// Where a host path is found inside a sandbox, and on what terms.
#[derive(Debug, PartialEq, Eq)]
pub struct Visible {
    pub path: String,
    pub access: &'static str,
}

/// The host path a mount carries.
pub open spec fn source_of(mount: Mount) -> Option<Seq<char>> {
    match mount {
        Mount::Bind { source, .. } => Some(source@),
        Mount::Overlay { source, .. } => Some(source@),
        Mount::Temporary { .. } => None,
    }
}

/// Where a mount is found inside.
pub open spec fn destination_of(mount: Mount) -> Seq<char> {
    match mount {
        Mount::Bind { destination, .. } => destination@,
        Mount::Overlay { destination, .. } => destination@,
        Mount::Temporary { destination } => destination@,
    }
}

/// The word for a mount's access.
pub open spec fn access_of(mount: Mount) -> Seq<char> {
    match mount {
        Mount::Bind { access, .. } => match access {
            MountAccess::ReadOnly => "ro"@,
            MountAccess::ReadWrite => "rw"@,
        },
        _ => "overlay"@,
    }
}

/// What is left of `host` below the path a mount carries, where it carries it.
pub open spec fn carried(mount: Mount, host: Seq<char>) -> Option<Seq<char>> {
    match source_of(mount) {
        Some(source) => below(host, source),
        None => None,
    }
}

/// How many parts the path has that a mount carries.
pub open spec fn reach(mount: Mount) -> nat {
    match source_of(mount) {
        Some(source) => parts(source),
        None => 0,
    }
}

/// Whether the mount at `i` is the innermost that carries `host`: the one of
/// the longest path, and the last of several.
pub open spec fn innermost(mounts: Seq<Mount>, host: Seq<char>, i: int) -> bool {
    &&& 0 <= i < mounts.len()
    &&& carried(mounts[i], host) is Some
    &&& forall|j: int|
        0 <= j < mounts.len() && carried(#[trigger] mounts[j], host) is Some ==> reach(mounts[j])
            <= reach(mounts[i]) && (j > i ==> reach(mounts[j]) < reach(mounts[i]))
}

/// What `mount` makes of `host`.
pub open spec fn seen_through(mount: Mount, host: Seq<char>, visible: Visible) -> bool {
    &&& carried(mount, host) is Some
    &&& visible.path@ == under(destination_of(mount), carried(mount, host)->Some_0)
    &&& visible.access@ == access_of(mount)
}

fn see(mount: &Mount, host: &str) -> (r: Option<(u128, Visible)>)
    ensures
        match r {
            Some(found) => found.0 == reach(*mount) && seen_through(*mount, host@, found.1),
            None => carried(*mount, host@) is None,
        },
{
    match mount {
        Mount::Bind { source, destination, access } => {
            match strip_prefix(host, source.as_str()) {
                Some(rest) => {
                    let access: &'static str = match access {
                        MountAccess::ReadOnly => "ro",
                        MountAccess::ReadWrite => "rw",
                    };
                    Some(
                        (
                            depth(source.as_str()),
                            Visible { path: join(destination.as_str(), rest.as_str()), access },
                        ),
                    )
                },
                None => None,
            }
        },
        Mount::Overlay { source, destination } => match strip_prefix(host, source.as_str()) {
            Some(rest) => Some(
                (
                    depth(source.as_str()),
                    Visible {
                        path: join(destination.as_str(), rest.as_str()),
                        access: "overlay",
                    },
                ),
            ),
            None => None,
        },
        Mount::Temporary { .. } => None,
    }
}

/// Where `host` is found inside a sandbox with these mounts, and on what terms:
/// through the innermost mount that carries it.
pub fn visibility(mounts: &Vec<Mount>, host: &str) -> (r: Option<Visible>)
    ensures
        match r {
            Some(visible) => exists|i: int|
                #[trigger] innermost(mounts@, host@, i) && seen_through(mounts@[i], host@, visible),
            None => forall|i: int|
                0 <= i < mounts@.len() ==> carried(#[trigger] mounts@[i], host@) is None,
        },
{
    let mut best: Option<(u128, Visible)> = None;
    let ghost mut at: int = -1;
    let mut i: usize = 0;
    assert(mounts@.take(0) =~= Seq::<Mount>::empty());
    while i < mounts.len()
        invariant
            i <= mounts@.len(),
            match best {
                Some(found) => innermost(mounts@.take(i as int), host@, at) && found.0 == reach(
                    mounts@[at],
                ) && seen_through(mounts@[at], host@, found.1),
                None => forall|j: int|
                    0 <= j < i ==> carried(#[trigger] mounts@[j], host@) is None,
            },
        decreases mounts.len() - i,
    {
        let ghost before = mounts@.take(i as int);
        let ghost now = mounts@.take(i + 1);
        assert forall|j: int| 0 <= j < i implies before[j] == now[j] by {}
        match see(&mounts[i], host) {
            Some(found) => {
                let deeper = match &best {
                    Some(held) => held.0 <= found.0,
                    None => true,
                };
                if deeper {
                    proof {
                        let was = at;
                        at = i as int;
                        assert forall|j: int|
                            0 <= j < now.len() && carried(#[trigger] now[j], host@)
                                is Some implies reach(now[j]) <= reach(now[at]) && (j > at
                            ==> reach(now[j]) < reach(now[at])) by {
                            if j < i {
                                assert(before[j] == now[j]);
                                assert(mounts@[j] == now[j]);
                            }
                        }
                    }
                    best = Some(found);
                } else {
                    assert(innermost(now, host@, at)) by {
                        assert forall|j: int|
                            0 <= j < now.len() && carried(#[trigger] now[j], host@)
                                is Some implies reach(now[j]) <= reach(now[at]) && (j > at
                            ==> reach(now[j]) < reach(now[at])) by {
                            if j < i {
                                assert(before[j] == now[j]);
                            }
                        }
                    }
                }
            },
            None => {
                if let Some(_) = &best {
                    assert(innermost(now, host@, at)) by {
                        assert forall|j: int|
                            0 <= j < now.len() && carried(#[trigger] now[j], host@)
                                is Some implies reach(now[j]) <= reach(now[at]) && (j > at
                            ==> reach(now[j]) < reach(now[at])) by {
                            if j < i {
                                assert(before[j] == now[j]);
                            }
                        }
                    }
                }
            },
        }
        i = i + 1;
    }
    assert(mounts@.take(mounts@.len() as int) =~= mounts@);
    match best {
        Some((_, visible)) => {
            assert(innermost(mounts@, host@, at));
            Some(visible)
        },
        None => None,
    }
}

// --- Git ---------------------------------------------------------------------

/// The nearest directory at or above `start` that is among `repositories`, the
/// directories that hold a `.git`.
pub fn git_root(start: &str, repositories: &Vec<String>) -> (r: Option<String>)
    ensures
        match r {
            Some(root) => exists|i: int|
                0 <= i < ancestry(start@).len() && #[trigger] ancestry(start@)[i] == root@ && holds(
                    repositories@,
                    root@,
                ) && forall|j: int|
                    0 <= j < i ==> !holds(repositories@, #[trigger] ancestry(start@)[j]),
            None => forall|j: int|
                0 <= j < ancestry(start@).len() ==> !holds(
                    repositories@,
                    #[trigger] ancestry(start@)[j],
                ),
        },
{
    let all = ancestors(start);
    let ghost line = ancestry(start@);
    let mut i: usize = 0;
    while i < all.len()
        invariant
            i <= all@.len(),
            line == ancestry(start@),
            views(all@) == line,
            forall|j: int| 0 <= j < i ==> !holds(repositories@, #[trigger] line[j]),
        decreases all.len() - i,
    {
        assert(line[i as int] == all@[i as int]@);
        if contains_text(repositories, all[i].as_str()) {
            return Some(all[i].clone());
        }
        i = i + 1;
    }
    None
}

/// What follows `gitdir:` on the first of the lines that starts with it.
pub open spec fn first_pointer(lines: Seq<Seq<char>>) -> Option<Seq<char>>
    decreases lines.len(),
{
    if lines.len() == 0 {
        None
    } else if starts(trimmed(lines[0]), "gitdir:"@) {
        Some(trimmed(trimmed(lines[0]).skip("gitdir:"@.len() as int)))
    } else {
        first_pointer(lines.skip(1))
    }
}

/// The directory that a `.git` file points at.
pub fn git_pointer(contents: &str) -> (r: Option<String>)
    ensures
        view_of(r) == first_pointer(split_at_each(contents@, '\n')),
{
    let lines = split_on(contents, '\n');
    let ghost all = views(lines@);
    let mut i: usize = 0;
    assert(all.skip(0) =~= all);
    while i < lines.len()
        invariant
            i <= lines@.len(),
            all == views(lines@),
            all == split_at_each(contents@, '\n'),
            first_pointer(all.skip(i as int)) == first_pointer(all),
        decreases lines.len() - i,
    {
        proof {
            assert(all.skip(i as int)[0] == lines@[i as int]@);
            assert(all.skip(i as int).skip(1) =~= all.skip(i + 1));
        }
        let line = trim(lines[i].as_str());
        if let Some(target) = strip_start(line.as_str(), "gitdir:") {
            return Some(trim(target.as_str()));
        }
        i = i + 1;
    }
    None
}

/// A path that a pointer file gave, taken against the directory it stands in.
pub fn resolve_against(base: &str, target: &str) -> (r: String)
    ensures
        r@ == under(base@, target@),
{
    join(base, target)
}

/// The mounts that carry the history of the checkout at `root`: the checkout
/// itself, and the directories outside of it that hold its history, all of them
/// writable.
pub open spec fn history_mounts(
    root: Seq<char>,
    directories: Seq<Seq<char>>,
) -> Seq<LaunchMountView> {
    (seq![root] + directories).map_values(
        |source: Seq<char>| LaunchMountView { source, destination: None, writable: true },
    )
}

/// The mounts that carry the history of the checkout at `root`.
pub fn mounts_of_history(root: String, directories: Vec<String>) -> (r: Vec<LaunchMount>)
    ensures
        mount_views(r@) == history_mounts(root@, views(directories@)),
{
    let mut r: Vec<LaunchMount> = Vec::new();
    let ghost all = history_mounts(root@, views(directories@));
    r.push(LaunchMount { source: root, destination: None, writable: true });
    let mut i: usize = 0;
    assert(mount_views(r@) =~= all.take(1));
    while i < directories.len()
        invariant
            i <= directories@.len(),
            all == history_mounts(root@, views(directories@)),
            mount_views(r@) == all.take(i + 1),
        decreases directories.len() - i,
    {
        let ghost had = mount_views(r@);
        let mount = LaunchMount {
            source: directories[i].clone(),
            destination: None,
            writable: true,
        };
        proof {
            assert((seq![root@] + views(directories@))[i + 1] == directories@[i as int]@);
            assert(all[i + 1] == mount@);
            assert(all.take(i + 2) =~= all.take(i + 1).push(all[i + 1]));
        }
        r.push(mount);
        assert(mount_views(r@) =~= had.push(mount@));
        i = i + 1;
    }
    assert(all.take(all.len() as int) =~= all);
    r
}

/// The directories that hold a worktree's history: the one its pointer names,
/// and the common one where that is another.
pub fn history_directories(git_directory: String, common: Option<String>) -> (r: Vec<String>)
    ensures
        match common {
            Some(other) => if same_place(git_directory@, other@) {
                r@ == seq![git_directory]
            } else {
                r@ == seq![git_directory, other]
            },
            None => r@ == seq![git_directory],
        },
{
    let mut r: Vec<String> = Vec::new();
    match common {
        Some(other) => {
            if same_path(git_directory.as_str(), other.as_str()) {
                r.push(git_directory);
            } else {
                r.push(git_directory);
                r.push(other);
            }
        },
        None => {
            r.push(git_directory);
        },
    }
    r
}

} // verus!
