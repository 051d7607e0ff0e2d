use vstd::prelude::*;
use crate::entry::{join_path, spec_join_path, DirEntry, EntryKind};

verus! {

/// What the surrounding program observed when it probed one pending path.
/// Probing is I/O and happens outside this crate; the walk itself — what
/// the probe classifies, what it reports, and what is visited next — is
/// decided here.
pub enum Probe {
    /// A directory whose listing was read: the base names of its children,
    /// in the order the platform returned them.
    Directory(Vec<String>),
    /// A directory whose listing could not be read: the error's text.
    DirectoryUnreadable(String),
    /// A plain file.
    File,
    /// A symbolic link, whatever it points at: links are never followed.
    SymbolicLink,
    /// A path that could not be examined at all: the error's text.
    Unreadable(String),
}

/// One unreadable path met during a walk. It is reported and stepped past:
/// it never ends the walk.
pub struct WalkError {
    pub path: String,
    pub message: String,
}

/// The kind a probe classifies its path as, when it classifies it at all.
pub open spec fn probe_kind(probe: Probe) -> Option<EntryKind> {
    match probe {
        Probe::Directory(_) => Some(EntryKind::Directory),
        Probe::DirectoryUnreadable(_) => Some(EntryKind::Directory),
        Probe::File => Some(EntryKind::File),
        Probe::SymbolicLink => Some(EntryKind::SymbolicLink),
        Probe::Unreadable(_) => None,
    }
}

/// The error text a probe reports, when it reports one.
pub open spec fn probe_error(probe: Probe) -> Option<Seq<char>> {
    match probe {
        Probe::DirectoryUnreadable(message) => Some(message@),
        Probe::Unreadable(message) => Some(message@),
        _ => None,
    }
}

/// The children of a readable directory as they go onto the stack of
/// pending paths: joined below `dir` and reversed, so that the first child
/// in listing order is popped — and so visited — first.
pub open spec fn pushed_children(dir: Seq<char>, children: Seq<Seq<char>>) -> Seq<Seq<char>>
    decreases children.len(),
{
    if children.len() == 0 {
        Seq::<Seq<char>>::empty()
    } else {
        pushed_children(dir, children.drop_first()).push(spec_join_path(dir, children.first()))
    }
}

/// What a probe adds to the stack of pending paths: only a readable
/// directory adds anything.
pub open spec fn probe_children(path: Seq<char>, probe: Probe) -> Seq<Seq<char>> {
    match probe {
        Probe::Directory(children) => pushed_children(
            path,
            children@.map_values(|c: String| c@),
        ),
        _ => Seq::<Seq<char>>::empty(),
    }
}

/// The engine of one depth-first walk: the stack of paths still to visit,
/// top last. The walk starts with the root alone on the stack, pops one
/// path per step, and pushes a popped directory's children; it is over when
/// the stack is empty, which every finite tree reaches.
pub struct Walker {
    pending: Vec<String>,
}

impl View for Walker {
    type V = Seq<Seq<char>>;

    closed spec fn view(&self) -> Seq<Seq<char>> {
        self.pending@.map_values(|p: String| p@)
    }
}

impl Walker {
    /// A walk about to begin at `root`: the root itself is the first — and
    /// so far only — path to visit.
    pub fn new(root: String) -> (r: Walker)
        ensures
            r@ == seq![root@],
    {
        let mut pending: Vec<String> = Vec::new();
        pending.push(root);
        let r = Walker { pending };
        proof {
            assert(r@ =~= seq![root@]);
        }
        r
    }

    /// Pops the next path to probe. `None` exactly when the walk is over.
    pub fn next_path(&mut self) -> (r: Option<String>)
        ensures
            old(self)@.len() == 0 ==> r is None && final(self)@ == old(self)@,
            old(self)@.len() > 0 ==> (r matches Some(p) && p@ == old(self)@.last()
                && final(self)@ == old(self)@.drop_last()),
    {
        let r = self.pending.pop();
        proof {
            if old(self)@.len() > 0 {
                assert(self@ =~= old(self)@.drop_last());
            } else {
                assert(self@ =~= old(self)@);
            }
        }
        r
    }

    /// Accounts one probed path: a readable directory's children become
    /// pending, everything else leaves the stack alone. Returns the entry
    /// the probe classifies and the error it reports — an unreadable
    /// directory yields both, an unreadable path only the error, and in no
    /// case does the walk end early.
    pub fn step(&mut self, path: String, probe: &Probe) -> (r: (
        Option<DirEntry>,
        Option<WalkError>,
    ))
        ensures
            final(self)@ == old(self)@ + probe_children(path@, *probe),
            probe_kind(*probe) is None ==> r.0 is None,
            probe_kind(*probe) matches Some(k) ==> (r.0 matches Some(e) && e.path@ == path@
                && e.kind == k),
            probe_error(*probe) is None ==> r.1 is None,
            probe_error(*probe) matches Some(m) ==> (r.1 matches Some(e) && e.path@ == path@
                && e.message@ == m),
    {
        match probe {
            Probe::Directory(children) => {
                self.push_children(&path, children);
                (Some(DirEntry { path, kind: EntryKind::Directory }), None)
            },
            Probe::DirectoryUnreadable(message) => {
                proof {
                    assert(old(self)@ + probe_children(path@, *probe) =~= old(self)@);
                }
                (
                    Some(DirEntry { path: path.clone(), kind: EntryKind::Directory }),
                    Some(WalkError { path, message: message.clone() }),
                )
            },
            Probe::File => {
                proof {
                    assert(old(self)@ + probe_children(path@, *probe) =~= old(self)@);
                }
                (Some(DirEntry { path, kind: EntryKind::File }), None)
            },
            Probe::SymbolicLink => {
                proof {
                    assert(old(self)@ + probe_children(path@, *probe) =~= old(self)@);
                }
                (Some(DirEntry { path, kind: EntryKind::SymbolicLink }), None)
            },
            Probe::Unreadable(message) => {
                proof {
                    assert(old(self)@ + probe_children(path@, *probe) =~= old(self)@);
                }
                (None, Some(WalkError { path, message: message.clone() }))
            },
        }
    }

    fn push_children(&mut self, dir: &String, children: &Vec<String>)
        ensures
            final(self)@ == old(self)@ + pushed_children(
                dir@,
                children@.map_values(|c: String| c@),
            ),
    {
        let ghost cs = children@.map_values(|c: String| c@);
        let n = children.len();
        proof {
            assert(cs.subrange(n as int, n as int) =~= Seq::<Seq<char>>::empty());
            assert(self@ + pushed_children(dir@, cs.subrange(n as int, n as int)) =~= self@);
        }
        let mut k: usize = 0;
        while k < n
            invariant
                n == children@.len(),
                cs == children@.map_values(|c: String| c@),
                0 <= k <= n,
                self@ == old(self)@ + pushed_children(dir@, cs.subrange(n - k, n as int)),
            decreases n - k,
        {
            let p = join_path(dir.as_str(), children[n - 1 - k].as_str());
            let ghost before = self@;
            self.pending.push(p);
            proof {
                assert(self@ =~= before.push(spec_join_path(dir@, cs[n - 1 - k])));
                let s = cs.subrange(n - 1 - k, n as int);
                assert(s.first() == cs[n - 1 - k]);
                assert(s.drop_first() =~= cs.subrange(n - k, n as int));
                assert(pushed_children(dir@, s) == pushed_children(dir@, s.drop_first()).push(
                    spec_join_path(dir@, s.first()),
                ));
                assert(self@ =~= old(self)@ + pushed_children(
                    dir@,
                    cs.subrange(n - 1 - k, n as int),
                ));
            }
            k += 1;
        }
        proof {
            assert(cs.subrange(0, n as int) =~= cs);
        }
    }
}

/// The listing-order law of the stack: a directory's children go onto the
/// stack reversed, so they come off it — and so are visited — in exactly
/// the order the listing gave them: the i-th child in listing order stands
/// i below the top.
pub proof fn lemma_children_pop_in_listing_order(
    dir: Seq<char>,
    children: Seq<Seq<char>>,
    i: int,
)
    requires
        0 <= i < children.len(),
    ensures
        pushed_children(dir, children).len() == children.len(),
        pushed_children(dir, children)[children.len() - 1 - i] == spec_join_path(
            dir,
            children[i],
        ),
    decreases children.len(),
{
    lemma_pushed_children_len(dir, children);
    if i > 0 {
        lemma_children_pop_in_listing_order(dir, children.drop_first(), i - 1);
    }
}

proof fn lemma_pushed_children_len(dir: Seq<char>, children: Seq<Seq<char>>)
    ensures
        pushed_children(dir, children).len() == children.len(),
    decreases children.len(),
{
    if children.len() > 0 {
        lemma_pushed_children_len(dir, children.drop_first());
    }
}

/// The single-file law of the walk: a path that probes as a plain file is a
/// leaf. It is classified `File`, reports no error, and adds nothing to the
/// pending paths — so a walk whose root probes as a file yields exactly the
/// root's own entry and then is over.
pub proof fn lemma_file_probe_is_leaf(path: Seq<char>)
    ensures
        probe_kind(Probe::File) == Some(EntryKind::File),
        probe_error(Probe::File) is None,
        probe_children(path, Probe::File) == Seq::<Seq<char>>::empty(),
{
}

} // verus!
