//! What a whole walk through a clone lists.

use vstd::prelude::*;

use crate::github::fetch::{enters, joined_path, lists, noted, walk_start, DirEntry, WalkState};
use crate::github::filter::FileFilter;

verus! {

/// The directories of a clone: the entries of each, by its path.
pub type Tree = spec_fn(Seq<char>) -> Seq<DirEntry>;

/// The walk after all entries of a directory were noted.
pub open spec fn visited(
    walk: WalkState,
    filter: FileFilter,
    dir: Seq<char>,
    entries: Seq<DirEntry>,
) -> WalkState
    decreases entries.len(),
{
    if entries.len() == 0 {
        walk
    } else {
        noted(
            visited(walk, filter, dir, entries.drop_last()),
            filter,
            dir,
            entries.last(),
        )
    }
}

/// The walk after up to `n` directories were read, each the one that was noted last.
pub open spec fn walked(tree: Tree, filter: FileFilter, n: nat) -> WalkState
    decreases n,
{
    if n == 0 {
        walk_start()
    } else {
        let before = walked(tree, filter, (n - 1) as nat);
        if before.pending.len() == 0 {
            before
        } else {
            let dir = before.pending.last();
            visited(
                WalkState { pending: before.pending.drop_last(), files: before.files },
                filter,
                dir,
                tree(dir),
            )
        }
    }
}

/// The path is that of an entry of the directory that is to be read.
pub open spec fn is_subdir(
    tree: Tree,
    filter: FileFilter,
    dir: Seq<char>,
    path: Seq<char>,
) -> bool {
    exists|i: int|
        0 <= i < tree(dir).len() && enters(filter, dir, #[trigger] tree(dir)[i]) && path
            == joined_path(dir, tree(dir)[i].name@)
}

/// The path is that of an entry of the directory that is to be listed.
pub open spec fn is_file_in(
    tree: Tree,
    filter: FileFilter,
    dir: Seq<char>,
    path: Seq<char>,
) -> bool {
    exists|i: int|
        0 <= i < tree(dir).len() && lists(filter, dir, #[trigger] tree(dir)[i]) && path
            == joined_path(dir, tree(dir)[i].name@)
}

/// The path is that of a directory so many levels below the clone, which is reached through
/// directories that the filter admits.
pub open spec fn is_reached_at(tree: Tree, filter: FileFilter, path: Seq<char>, depth: nat) -> bool
    decreases depth,
{
    if depth == 0 {
        path.len() == 0
    } else {
        exists|dir: Seq<char>|
            is_reached_at(tree, filter, dir, (depth - 1) as nat) && #[trigger] is_subdir(
                tree,
                filter,
                dir,
                path,
            )
    }
}

/// The path is that of the clone, or of a directory that is reached from it through directories
/// that the filter admits.
pub open spec fn is_reached(tree: Tree, filter: FileFilter, path: Seq<char>) -> bool {
    exists|depth: nat| is_reached_at(tree, filter, path, depth)
}

/// The path is that of an admitted regular file in a directory that is reached.
pub open spec fn is_wanted(tree: Tree, filter: FileFilter, path: Seq<char>) -> bool {
    exists|dir: Seq<char>| #[trigger]
        is_reached(tree, filter, dir) && is_file_in(tree, filter, dir, path)
}

/// The name of an entry: not empty, and without a slash.
pub open spec fn is_entry_name(name: Seq<char>) -> bool {
    name.len() > 0 && !name.contains('/')
}

/// The entries of each directory have names, no two the same.
pub open spec fn has_names(tree: Tree) -> bool {
    &&& forall|dir: Seq<char>, i: int|
        0 <= i < tree(dir).len() ==> is_entry_name((#[trigger] tree(dir)[i]).name@)
    &&& forall|dir: Seq<char>, i: int, j: int|
        0 <= i < j < tree(dir).len() ==> (#[trigger] tree(dir)[i]).name@ != (
        #[trigger] tree(dir)[j]).name@
}

// --- One directory ---

spec fn is_subdir_among(
    filter: FileFilter,
    dir: Seq<char>,
    entries: Seq<DirEntry>,
    path: Seq<char>,
) -> bool {
    exists|i: int|
        0 <= i < entries.len() && enters(filter, dir, #[trigger] entries[i]) && path
            == joined_path(dir, entries[i].name@)
}

spec fn is_file_among(
    filter: FileFilter,
    dir: Seq<char>,
    entries: Seq<DirEntry>,
    path: Seq<char>,
) -> bool {
    exists|i: int|
        0 <= i < entries.len() && lists(filter, dir, #[trigger] entries[i]) && path
            == joined_path(dir, entries[i].name@)
}

proof fn push_adds_one(s: Seq<Seq<char>>, x: Seq<char>, path: Seq<char>)
    ensures
        s.push(x).contains(path) <==> s.contains(path) || path == x,
{
    if s.contains(path) {
        let i = choose|i: int| 0 <= i < s.len() && s[i] == path;
        assert(s.push(x)[i] == path);
    }
    assert(s.push(x)[s.len() as int] == x);
}

proof fn among_grows(filter: FileFilter, dir: Seq<char>, entries: Seq<DirEntry>, path: Seq<char>)
    requires
        entries.len() > 0,
    ensures
        is_subdir_among(filter, dir, entries, path) <==> is_subdir_among(
            filter,
            dir,
            entries.drop_last(),
            path,
        ) || enters(filter, dir, entries.last()) && path == joined_path(dir, entries.last().name@),
        is_file_among(filter, dir, entries, path) <==> is_file_among(
            filter,
            dir,
            entries.drop_last(),
            path,
        ) || lists(filter, dir, entries.last()) && path == joined_path(dir, entries.last().name@),
{
    let fewer = entries.drop_last();
    assert(forall|i: int| 0 <= i < fewer.len() ==> #[trigger] fewer[i] == entries[i]);
    assert(entries[entries.len() - 1] == entries.last());
    if is_subdir_among(filter, dir, fewer, path) {
        let i = choose|i: int|
            0 <= i < fewer.len() && enters(filter, dir, #[trigger] fewer[i]) && path
                == joined_path(dir, fewer[i].name@);
        assert(enters(filter, dir, entries[i]));
    }
    if is_file_among(filter, dir, fewer, path) {
        let i = choose|i: int|
            0 <= i < fewer.len() && lists(filter, dir, #[trigger] fewer[i]) && path == joined_path(
                dir,
                fewer[i].name@,
            );
        assert(lists(filter, dir, entries[i]));
    }
    if is_subdir_among(filter, dir, entries, path) {
        let i = choose|i: int|
            0 <= i < entries.len() && enters(filter, dir, #[trigger] entries[i]) && path
                == joined_path(dir, entries[i].name@);
        if i < fewer.len() {
            assert(enters(filter, dir, fewer[i]));
        }
    }
    if is_file_among(filter, dir, entries, path) {
        let i = choose|i: int|
            0 <= i < entries.len() && lists(filter, dir, #[trigger] entries[i]) && path
                == joined_path(dir, entries[i].name@);
        if i < fewer.len() {
            assert(lists(filter, dir, fewer[i]));
        }
    }
}

/// Reading a directory adds exactly its admitted entries.
proof fn visiting_adds_entries(
    walk: WalkState,
    filter: FileFilter,
    dir: Seq<char>,
    entries: Seq<DirEntry>,
    path: Seq<char>,
)
    ensures
        visited(walk, filter, dir, entries).pending.contains(path) <==> walk.pending.contains(path)
            || is_subdir_among(filter, dir, entries, path),
        visited(walk, filter, dir, entries).files.contains(path) <==> walk.files.contains(path)
            || is_file_among(filter, dir, entries, path),
    decreases entries.len(),
{
    if entries.len() > 0 {
        let before = visited(walk, filter, dir, entries.drop_last());
        let added = joined_path(dir, entries.last().name@);
        visiting_adds_entries(walk, filter, dir, entries.drop_last(), path);
        among_grows(filter, dir, entries, path);
        push_adds_one(before.pending, added, path);
        push_adds_one(before.files, added, path);
    }
}

// --- What is listed ---

/// The directories that were read after `n` steps.
spec fn dirs_read(tree: Tree, filter: FileFilter, n: nat) -> Set<Seq<char>>
    decreases n,
{
    if n == 0 {
        Set::empty()
    } else {
        let before = walked(tree, filter, (n - 1) as nat);
        if before.pending.len() == 0 {
            dirs_read(tree, filter, (n - 1) as nat)
        } else {
            dirs_read(tree, filter, (n - 1) as nat).insert(before.pending.last())
        }
    }
}

/// The directory was read or is still to be read.
spec fn is_known(tree: Tree, filter: FileFilter, n: nat, path: Seq<char>) -> bool {
    dirs_read(tree, filter, n).contains(path) || walked(tree, filter, n).pending.contains(path)
}

/// The file lies in a directory that was read.
spec fn is_found(tree: Tree, filter: FileFilter, n: nat, path: Seq<char>) -> bool {
    exists|dir: Seq<char>| #[trigger]
        dirs_read(tree, filter, n).contains(dir) && is_file_in(tree, filter, dir, path)
}

proof fn popped_is_rest(s: Seq<Seq<char>>, path: Seq<char>)
    requires
        s.len() > 0,
    ensures
        s.contains(path) <==> s.drop_last().contains(path) || path == s.last(),
{
    push_adds_one(s.drop_last(), s.last(), path);
    assert(s.drop_last().push(s.last()) =~= s);
}

/// How one step changes what is known and found.
proof fn step_adds_entries(tree: Tree, filter: FileFilter, n: nat, path: Seq<char>)
    requires
        n > 0,
        walked(tree, filter, (n - 1) as nat).pending.len() > 0,
    ensures
        ({
            let before = walked(tree, filter, (n - 1) as nat);
            let dir = before.pending.last();
            &&& dirs_read(tree, filter, n).contains(path) <==> dirs_read(
                tree,
                filter,
                (n - 1) as nat,
            ).contains(path) || path == dir
            &&& walked(tree, filter, n).pending.contains(path)
                <==> before.pending.drop_last().contains(path) || is_subdir(tree, filter, dir, path)
            &&& walked(tree, filter, n).files.contains(path) <==> before.files.contains(path)
                || is_file_in(tree, filter, dir, path)
            &&& is_known(tree, filter, n, path) <==> is_known(tree, filter, (n - 1) as nat, path)
                || is_subdir(tree, filter, dir, path)
        }),
{
    let before = walked(tree, filter, (n - 1) as nat);
    let dir = before.pending.last();
    let popped = WalkState { pending: before.pending.drop_last(), files: before.files };
    visiting_adds_entries(popped, filter, dir, tree(dir), path);
    popped_is_rest(before.pending, path);
}

proof fn found_grows(tree: Tree, filter: FileFilter, n: nat, path: Seq<char>)
    requires
        n > 0,
        walked(tree, filter, (n - 1) as nat).pending.len() > 0,
    ensures
        is_found(tree, filter, n, path) <==> is_found(tree, filter, (n - 1) as nat, path)
            || is_file_in(
            tree,
            filter,
            walked(tree, filter, (n - 1) as nat).pending.last(),
            path,
        ),
{
    let before = dirs_read(tree, filter, (n - 1) as nat);
    let dir = walked(tree, filter, (n - 1) as nat).pending.last();
    let after = dirs_read(tree, filter, n);
    assert(after == before.insert(dir));
    assert(after.contains(dir));
    if is_found(tree, filter, (n - 1) as nat, path) {
        let d = choose|d: Seq<char>| #[trigger]
            before.contains(d) && is_file_in(tree, filter, d, path);
        assert(after.contains(d));
    }
    if is_found(tree, filter, n, path) {
        let d = choose|d: Seq<char>| #[trigger]
            after.contains(d) && is_file_in(tree, filter, d, path);
        assert(d == dir || before.contains(d));
    }
}

proof fn files_are_found(tree: Tree, filter: FileFilter, n: nat, path: Seq<char>)
    ensures
        walked(tree, filter, n).files.contains(path) <==> is_found(tree, filter, n, path),
    decreases n,
{
    if n > 0 {
        files_are_found(tree, filter, (n - 1) as nat, path);
        if walked(tree, filter, (n - 1) as nat).pending.len() > 0 {
            step_adds_entries(tree, filter, n, path);
            found_grows(tree, filter, n, path);
        } else {
            assert(dirs_read(tree, filter, n) == dirs_read(tree, filter, (n - 1) as nat));
        }
    } else {
        assert(dirs_read(tree, filter, n) == Set::<Seq<char>>::empty());
    }
}

proof fn subdir_is_reached(tree: Tree, filter: FileFilter, dir: Seq<char>, path: Seq<char>)
    requires
        is_reached(tree, filter, dir),
        is_subdir(tree, filter, dir, path),
    ensures
        is_reached(tree, filter, path),
{
    let depth = choose|depth: nat| is_reached_at(tree, filter, dir, depth);
    assert(is_reached_at(tree, filter, dir, ((depth + 1) - 1) as nat));
    assert(is_reached_at(tree, filter, path, depth + 1));
}

proof fn known_is_reached(tree: Tree, filter: FileFilter, n: nat, path: Seq<char>)
    requires
        is_known(tree, filter, n, path),
    ensures
        is_reached(tree, filter, path),
    decreases n,
{
    if n == 0 {
        assert(is_reached_at(tree, filter, path, 0));
    } else {
        let before = walked(tree, filter, (n - 1) as nat);
        if before.pending.len() > 0 {
            let dir = before.pending.last();
            step_adds_entries(tree, filter, n, path);
            if is_known(tree, filter, (n - 1) as nat, path) {
                known_is_reached(tree, filter, (n - 1) as nat, path);
            } else {
                assert(before.pending.contains(dir));
                known_is_reached(tree, filter, (n - 1) as nat, dir);
                subdir_is_reached(tree, filter, dir, path);
            }
        } else {
            known_is_reached(tree, filter, (n - 1) as nat, path);
        }
    }
}

proof fn clone_is_known(tree: Tree, filter: FileFilter, n: nat)
    ensures
        is_known(tree, filter, n, Seq::empty()),
    decreases n,
{
    if n == 0 {
        assert(walk_start().pending[0] == Seq::<char>::empty());
    } else {
        clone_is_known(tree, filter, (n - 1) as nat);
        if walked(tree, filter, (n - 1) as nat).pending.len() > 0 {
            step_adds_entries(tree, filter, n, Seq::empty());
        }
    }
}

proof fn subdirs_are_known(
    tree: Tree,
    filter: FileFilter,
    n: nat,
    dir: Seq<char>,
    path: Seq<char>,
)
    requires
        dirs_read(tree, filter, n).contains(dir),
        is_subdir(tree, filter, dir, path),
    ensures
        is_known(tree, filter, n, path),
    decreases n,
{
    if n > 0 {
        if walked(tree, filter, (n - 1) as nat).pending.len() > 0 {
            step_adds_entries(tree, filter, n, dir);
            step_adds_entries(tree, filter, n, path);
        }
        if dirs_read(tree, filter, (n - 1) as nat).contains(dir) {
            subdirs_are_known(tree, filter, (n - 1) as nat, dir, path);
        }
    }
}

proof fn reached_is_read(tree: Tree, filter: FileFilter, n: nat, path: Seq<char>, depth: nat)
    requires
        walked(tree, filter, n).pending.len() == 0,
        is_reached_at(tree, filter, path, depth),
    ensures
        dirs_read(tree, filter, n).contains(path),
    decreases depth,
{
    if depth == 0 {
        assert(path =~= Seq::<char>::empty());
        clone_is_known(tree, filter, n);
    } else {
        let dir = choose|dir: Seq<char>|
            is_reached_at(tree, filter, dir, (depth - 1) as nat) && #[trigger] is_subdir(
                tree,
                filter,
                dir,
                path,
            );
        reached_is_read(tree, filter, n, dir, (depth - 1) as nat);
        subdirs_are_known(tree, filter, n, dir, path);
    }
}

// --- Once each ---

/// Paths in directories are told apart by directory and name.
proof fn paths_are_different(
    dir: Seq<char>,
    name: Seq<char>,
    other: Seq<char>,
    other_name: Seq<char>,
)
    requires
        is_entry_name(name),
        is_entry_name(other_name),
        dir.len() > 0 ==> dir.last() != '/',
        other.len() > 0 ==> other.last() != '/',
        joined_path(dir, name) == joined_path(other, other_name),
    ensures
        dir == other,
        name == other_name,
{
    let path = joined_path(dir, name);
    let a = path.len() - name.len();
    let b = path.len() - other_name.len();
    assert(forall|i: int| a <= i < path.len() ==> path[i] == name[i - a]);
    assert(forall|i: int| b <= i < path.len() ==> path[i] == other_name[i - b]);
    if a > 0 {
        assert(path[a - 1] == '/');
    }
    if b > 0 {
        assert(path[b - 1] == '/');
    }
    if a < b {
        assert(name[b - 1 - a] == '/');
    } else if b < a {
        assert(other_name[a - 1 - b] == '/');
    }
    assert(name =~= path.skip(a));
    assert(other_name =~= path.skip(b));
    if a > 0 {
        assert(dir =~= path.take(a - 1));
        assert(other =~= path.take(a - 1));
    } else {
        assert(dir =~= other);
    }
}

proof fn reached_has_no_slash(tree: Tree, filter: FileFilter, path: Seq<char>, depth: nat)
    requires
        has_names(tree),
        is_reached_at(tree, filter, path, depth),
    ensures
        path.len() > 0 ==> path.last() != '/',
        depth > 0 ==> path.len() > 0,
{
    if depth > 0 {
        let dir = choose|dir: Seq<char>|
            is_reached_at(tree, filter, dir, (depth - 1) as nat) && #[trigger] is_subdir(
                tree,
                filter,
                dir,
                path,
            );
        let i = choose|i: int|
            0 <= i < tree(dir).len() && enters(filter, dir, #[trigger] tree(dir)[i]) && path
                == joined_path(dir, tree(dir)[i].name@);
        let name = tree(dir)[i].name@;
        assert(is_entry_name(name));
        assert(path.last() == name[name.len() - 1]);
    }
}

proof fn push_keeps_different(s: Seq<Seq<char>>, x: Seq<char>)
    requires
        s.no_duplicates(),
        !s.contains(x),
    ensures
        s.push(x).no_duplicates(),
{
    assert forall|i: int, j: int|
        0 <= i < s.push(x).len() && 0 <= j < s.push(x).len() && i != j implies s.push(x)[i]
        != s.push(x)[j] by {
        if i < s.len() {
            assert(s.contains(s[i]));
        }
        if j < s.len() {
            assert(s.contains(s[j]));
        }
    }
}

proof fn later_name_is_new(filter: FileFilter, dir: Seq<char>, entries: Seq<DirEntry>)
    requires
        entries.len() > 0,
        dir.len() > 0 ==> dir.last() != '/',
        forall|i: int| 0 <= i < entries.len() ==> is_entry_name((#[trigger] entries[i]).name@),
        forall|i: int, j: int|
            0 <= i < j < entries.len() ==> (#[trigger] entries[i]).name@ != (
            #[trigger] entries[j]).name@,
    ensures
        !is_subdir_among(
            filter,
            dir,
            entries.drop_last(),
            joined_path(dir, entries.last().name@),
        ),
        !is_file_among(
            filter,
            dir,
            entries.drop_last(),
            joined_path(dir, entries.last().name@),
        ),
{
    let fewer = entries.drop_last();
    let last = entries[entries.len() - 1].name@;
    let path = joined_path(dir, last);
    assert forall|i: int| 0 <= i < fewer.len() implies path != joined_path(
        dir,
        (#[trigger] fewer[i]).name@,
    ) by {
        assert(fewer[i] == entries[i]);
        assert(entries[i].name@ != last);
        if path == joined_path(dir, fewer[i].name@) {
            paths_are_different(dir, last, dir, fewer[i].name@);
        }
    }
}

/// Reading a directory notes nothing twice where none of its entries was noted before.
proof fn visiting_keeps_different(
    walk: WalkState,
    filter: FileFilter,
    dir: Seq<char>,
    entries: Seq<DirEntry>,
)
    requires
        dir.len() > 0 ==> dir.last() != '/',
        forall|i: int| 0 <= i < entries.len() ==> is_entry_name((#[trigger] entries[i]).name@),
        forall|i: int, j: int|
            0 <= i < j < entries.len() ==> (#[trigger] entries[i]).name@ != (
            #[trigger] entries[j]).name@,
        walk.pending.no_duplicates(),
        walk.files.no_duplicates(),
        forall|path: Seq<char>|
            is_subdir_among(filter, dir, entries, path) ==> !#[trigger] walk.pending.contains(path),
        forall|path: Seq<char>|
            is_file_among(filter, dir, entries, path) ==> !#[trigger] walk.files.contains(path),
    ensures
        visited(walk, filter, dir, entries).pending.no_duplicates(),
        visited(walk, filter, dir, entries).files.no_duplicates(),
    decreases entries.len(),
{
    if entries.len() > 0 {
        let fewer = entries.drop_last();
        let before = visited(walk, filter, dir, fewer);
        let added = joined_path(dir, entries.last().name@);
        assert forall|i: int| 0 <= i < fewer.len() implies is_entry_name(
            (#[trigger] fewer[i]).name@,
        ) by {
            assert(fewer[i] == entries[i]);
        }
        assert forall|i: int, j: int| 0 <= i < j < fewer.len() implies (
        #[trigger] fewer[i]).name@ != (#[trigger] fewer[j]).name@ by {
            assert(entries[i].name@ != entries[j].name@);
        }
        assert forall|path: Seq<char>| is_subdir_among(filter, dir, fewer, path) implies !(
        #[trigger] walk.pending.contains(path)) by {
            among_grows(filter, dir, entries, path);
        }
        assert forall|path: Seq<char>| is_file_among(filter, dir, fewer, path) implies !(
        #[trigger] walk.files.contains(path)) by {
            among_grows(filter, dir, entries, path);
        }
        visiting_keeps_different(walk, filter, dir, fewer);
        visiting_adds_entries(walk, filter, dir, fewer, added);
        among_grows(filter, dir, entries, added);
        later_name_is_new(filter, dir, entries);
        if enters(filter, dir, entries.last()) {
            assert(!walk.pending.contains(added));
            push_keeps_different(before.pending, added);
        }
        if lists(filter, dir, entries.last()) {
            assert(!walk.files.contains(added));
            push_keeps_different(before.files, added);
        }
    }
}

/// Every known directory but the clone is a subdirectory of one that was read.
proof fn known_has_parent(tree: Tree, filter: FileFilter, n: nat, path: Seq<char>) -> (dir: Seq<
    char,
>)
    requires
        is_known(tree, filter, n, path),
        path.len() > 0,
    ensures
        dirs_read(tree, filter, n).contains(dir),
        is_subdir(tree, filter, dir, path),
    decreases n,
{
    if n == 0 {
        assert(walk_start().pending.contains(path));
        Seq::empty()
    } else {
        let before = walked(tree, filter, (n - 1) as nat);
        if before.pending.len() > 0 {
            step_adds_entries(tree, filter, n, path);
        }
        if is_known(tree, filter, (n - 1) as nat, path) {
            let dir = known_has_parent(tree, filter, (n - 1) as nat, path);
            if before.pending.len() > 0 {
                step_adds_entries(tree, filter, n, dir);
            }
            dir
        } else {
            let dir = before.pending.last();
            step_adds_entries(tree, filter, n, dir);
            dir
        }
    }
}

/// An entry of a directory that was not yet read was not yet noted.
proof fn unread_entries_are_new(
    tree: Tree,
    filter: FileFilter,
    n: nat,
    dir: Seq<char>,
    path: Seq<char>,
)
    requires
        has_names(tree),
        is_reached(tree, filter, dir),
        !dirs_read(tree, filter, n).contains(dir),
    ensures
        is_subdir(tree, filter, dir, path) ==> !is_known(tree, filter, n, path),
        is_file_in(tree, filter, dir, path) ==> !walked(tree, filter, n).files.contains(path),
{
    let depth = choose|depth: nat| is_reached_at(tree, filter, dir, depth);
    reached_has_no_slash(tree, filter, dir, depth);
    if is_subdir(tree, filter, dir, path) && is_known(tree, filter, n, path) {
        let i = choose|i: int|
            0 <= i < tree(dir).len() && enters(filter, dir, #[trigger] tree(dir)[i]) && path
                == joined_path(dir, tree(dir)[i].name@);
        assert(is_entry_name(tree(dir)[i].name@));
        assert(path.len() > 0);
        let other = known_has_parent(tree, filter, n, path);
        let j = choose|j: int|
            0 <= j < tree(other).len() && enters(filter, other, #[trigger] tree(other)[j]) && path
                == joined_path(other, tree(other)[j].name@);
        assert(is_entry_name(tree(other)[j].name@));
        known_is_reached(tree, filter, n, other);
        let other_depth = choose|depth: nat| is_reached_at(tree, filter, other, depth);
        reached_has_no_slash(tree, filter, other, other_depth);
        paths_are_different(dir, tree(dir)[i].name@, other, tree(other)[j].name@);
    }
    if is_file_in(tree, filter, dir, path) && walked(tree, filter, n).files.contains(path) {
        let i = choose|i: int|
            0 <= i < tree(dir).len() && lists(filter, dir, #[trigger] tree(dir)[i]) && path
                == joined_path(dir, tree(dir)[i].name@);
        assert(is_entry_name(tree(dir)[i].name@));
        files_are_found(tree, filter, n, path);
        let other = choose|other: Seq<char>| #[trigger]
            dirs_read(tree, filter, n).contains(other) && is_file_in(tree, filter, other, path);
        let j = choose|j: int|
            0 <= j < tree(other).len() && lists(filter, other, #[trigger] tree(other)[j]) && path
                == joined_path(other, tree(other)[j].name@);
        assert(is_entry_name(tree(other)[j].name@));
        known_is_reached(tree, filter, n, other);
        let other_depth = choose|depth: nat| is_reached_at(tree, filter, other, depth);
        reached_has_no_slash(tree, filter, other, other_depth);
        paths_are_different(dir, tree(dir)[i].name@, other, tree(other)[j].name@);
    }
}

proof fn nothing_is_noted_twice(tree: Tree, filter: FileFilter, n: nat)
    requires
        has_names(tree),
    ensures
        walked(tree, filter, n).pending.no_duplicates(),
        walked(tree, filter, n).files.no_duplicates(),
        forall|path: Seq<char>|
            dirs_read(tree, filter, n).contains(path) ==> !#[trigger] walked(
                tree,
                filter,
                n,
            ).pending.contains(path),
    decreases n,
{
    if n > 0 {
        let m = (n - 1) as nat;
        nothing_is_noted_twice(tree, filter, m);
        let before = walked(tree, filter, m);
        if before.pending.len() > 0 {
            let dir = before.pending.last();
            let popped = WalkState { pending: before.pending.drop_last(), files: before.files };
            assert(before.pending.contains(dir));
            known_is_reached(tree, filter, m, dir);
            assert(!dirs_read(tree, filter, m).contains(dir));
            let depth = choose|depth: nat| is_reached_at(tree, filter, dir, depth);
            reached_has_no_slash(tree, filter, dir, depth);
            assert forall|path: Seq<char>|
                is_subdir_among(filter, dir, tree(dir), path) implies !(
            #[trigger] popped.pending.contains(path)) by {
                unread_entries_are_new(tree, filter, m, dir, path);
                popped_is_rest(before.pending, path);
            }
            assert forall|path: Seq<char>| is_file_among(filter, dir, tree(dir), path) implies !(
            #[trigger] popped.files.contains(path)) by {
                unread_entries_are_new(tree, filter, m, dir, path);
            }
            assert(popped.pending.no_duplicates());
            visiting_keeps_different(popped, filter, dir, tree(dir));
            assert forall|path: Seq<char>|
                dirs_read(tree, filter, n).contains(path) implies !#[trigger] walked(
                tree,
                filter,
                n,
            ).pending.contains(path) by {
                step_adds_entries(tree, filter, n, path);
                popped_is_rest(before.pending, path);
                unread_entries_are_new(tree, filter, m, dir, path);
                if path == dir {
                    assert(is_known(tree, filter, m, path));
                    if before.pending.drop_last().contains(dir) {
                        let i = choose|i: int|
                            0 <= i < before.pending.drop_last().len()
                                && before.pending.drop_last()[i] == dir;
                        assert(before.pending[i] == before.pending[before.pending.len() - 1]);
                    }
                }
            }
        }
    }
}

// --- Laws ---

/// The files that a whole walk finds are exactly the admitted regular files that are reached
/// through admitted directories.
pub proof fn walk_finds_wanted_files(tree: Tree, filter: FileFilter, n: nat, path: Seq<char>)
    requires
        walked(tree, filter, n).pending.len() == 0,
    ensures
        walked(tree, filter, n).files.contains(path) <==> is_wanted(tree, filter, path),
{
    files_are_found(tree, filter, n, path);
    if is_found(tree, filter, n, path) {
        let dir = choose|dir: Seq<char>| #[trigger]
            dirs_read(tree, filter, n).contains(dir) && is_file_in(tree, filter, dir, path);
        known_is_reached(tree, filter, n, dir);
    }
    if is_wanted(tree, filter, path) {
        let dir = choose|dir: Seq<char>| #[trigger]
            is_reached(tree, filter, dir) && is_file_in(tree, filter, dir, path);
        let depth = choose|depth: nat| is_reached_at(tree, filter, dir, depth);
        reached_is_read(tree, filter, n, dir, depth);
    }
}

/// The list of a whole walk, in whatever order, holds exactly the admitted regular files that are
/// reached through admitted directories, once each.
pub proof fn walk_lists_wanted_files_once(
    tree: Tree,
    filter: FileFilter,
    n: nat,
    listed: Seq<Seq<char>>,
)
    requires
        has_names(tree),
        walked(tree, filter, n).pending.len() == 0,
        listed.to_multiset() == walked(tree, filter, n).files.to_multiset(),
    ensures
        listed.no_duplicates(),
        forall|path: Seq<char>|
            #![trigger listed.contains(path)]
            listed.contains(path) <==> is_wanted(tree, filter, path),
{
    let files = walked(tree, filter, n).files;
    nothing_is_noted_twice(tree, filter, n);
    files.to_multiset_ensures();
    listed.to_multiset_ensures();
    files.lemma_multiset_has_no_duplicates();
    listed.lemma_multiset_has_no_duplicates_conv();
    assert forall|path: Seq<char>|
        #![trigger listed.contains(path)]
        listed.contains(path) <==> is_wanted(tree, filter, path) by {
        walk_finds_wanted_files(tree, filter, n, path);
        assert(files.contains(path) <==> files.to_multiset().count(path) > 0);
        assert(listed.contains(path) <==> listed.to_multiset().count(path) > 0);
    }
}

} // verus!
