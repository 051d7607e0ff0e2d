use vstd::prelude::*;
use vstd::string::StrSliceExecFns;
use vstd::string::StringExecFns;

verus! {

/// The classification of one filesystem entry. A symbolic link is classified
/// as `SymbolicLink` even when its target is a file or a directory: links are
/// identified, never followed.
#[derive(Clone, Copy, Debug, PartialEq, Eq, Structural)]
pub enum EntryKind {
    Directory,
    File,
    SymbolicLink,
}

/// One visited node of a walk: its display path, spelled as it was joined
/// from the root the walk started at, and its kind.
#[derive(Debug)]
pub struct DirEntry {
    pub path: String,
    pub kind: EntryKind,
}

/// The classification an entry gets from its metadata, read without
/// following links: being a symbolic link takes precedence, so a link is
/// `SymbolicLink` even when it resolves to a directory or to a file.
pub open spec fn spec_classify(is_symlink: bool, is_dir: bool) -> EntryKind {
    if is_symlink {
        EntryKind::SymbolicLink
    } else if is_dir {
        EntryKind::Directory
    } else {
        EntryKind::File
    }
}

/// Classifies an entry from what its metadata says of it. A symbolic link
/// is a `SymbolicLink` whatever it points at; only a non-link directory is
/// a `Directory`; everything else is a `File`.
pub fn classify(is_symlink: bool, is_dir: bool) -> (r: EntryKind)
    ensures
        r == spec_classify(is_symlink, is_dir),
{
    if is_symlink {
        EntryKind::SymbolicLink
    } else if is_dir {
        EntryKind::Directory
    } else {
        EntryKind::File
    }
}

/// The base name of a path: the final component, i.e. what follows the last
/// `/`. A path without a separator is its own base name; a path ending in a
/// separator has an empty base name.
pub open spec fn base_name_of(path: Seq<char>) -> Seq<char>
    decreases path.len(),
{
    if path.len() == 0 || path.last() == '/' {
        Seq::<char>::empty()
    } else {
        base_name_of(path.drop_last()).push(path.last())
    }
}

/// A path joined from a directory and the name of one of its children.
pub open spec fn spec_join_path(dir: Seq<char>, name: Seq<char>) -> Seq<char> {
    dir + seq!['/'] + name
}

proof fn lemma_base_name_is_suffix(path: Seq<char>, start: int)
    requires
        0 <= start <= path.len(),
        forall|k: int| start <= k < path.len() ==> path[k] != '/',
        start == 0 || path[start - 1] == '/',
    ensures
        base_name_of(path) == path.subrange(start, path.len() as int),
    decreases path.len(),
{
    if start == path.len() {
        assert(base_name_of(path) =~= path.subrange(start, path.len() as int));
    } else {
        let prefix = path.drop_last();
        lemma_base_name_is_suffix(prefix, start);
        assert(prefix.subrange(start, prefix.len() as int).push(path.last()) =~= path.subrange(
            start,
            path.len() as int,
        ));
    }
}

/// The base name of `path`: the component after the last `/`, or the whole
/// path when it holds no separator.
pub fn base_name(path: &str) -> (r: String)
    ensures
        r@ == base_name_of(path@),
{
    let n = path.unicode_len();
    let mut start: usize = 0;
    let mut i: usize = 0;
    while i < n
        invariant
            n == path@.len(),
            0 <= start <= i <= n,
            forall|k: int| start <= k < i ==> path@[k] != '/',
            start == 0 || path@[start - 1] == '/',
        decreases n - i,
    {
        if path.get_char(i) == '/' {
            start = i + 1;
        }
        i += 1;
    }
    let tail = path.substring_char(start, n);
    proof {
        lemma_base_name_is_suffix(path@, start as int);
    }
    String::from_str(tail)
}

/// Joins a directory path and a child's name with a single separator.
pub fn join_path(dir: &str, name: &str) -> (r: String)
    ensures
        r@ == spec_join_path(dir@, name@),
{
    let mut r = String::from_str(dir);
    r.append("/");
    r.append(name);
    proof {
        reveal_strlit("/");
        assert(r@ =~= spec_join_path(dir@, name@));
    }
    r
}

} // verus!
