//! The directory walker's decision core: which entries to skip, which
//! directories to queue, and which files to yield, bounded by a maximum
//! depth and an ignore set of canonical paths.
//!
//! The caller owns the actual directory reading; it feeds every entry it
//! sees to [`Walker::on_entry`] and acts on the returned action. When a
//! directory is exhausted it pops the next queued one with
//! [`Walker::next_folder`] and, once it opens, records the new depth with
//! [`Walker::enter`]. Directories are queued on an explicit stack, so the
//! traversal is depth-first with a directory's files yielded before any of
//! its subdirectories is entered.

use vstd::prelude::*;

verus! {

/// A directory waiting on the walker's stack, with the depth it sits at.
pub struct SubFolder {
    pub depth: u16,
    pub path: String,
}

/// What the walker decides about one directory entry.
#[derive(Clone, Copy, PartialEq, Eq, Debug, Structural)]
pub enum EntryAction {
    /// The entry's canonical path is in the ignore set: skip it and its
    /// whole subtree.
    Ignored,
    /// A directory within the depth bound: queued for a later visit.
    DirQueued,
    /// A directory beyond the depth bound: neither yielded nor entered.
    DirTooDeep,
    /// A file: the caller should probe it as a video candidate.
    File,
}

/// The walker's state: the stack of queued directories, the ignore set,
/// the depth bound and the depth of the directory being read.
pub struct Walker {
    pub sub: Vec<SubFolder>,
    pub ignores: Vec<String>,
    pub max_depth: u16,
    pub current_depth: u16,
}

/// Whether a canonical path is in the ignore set.
pub open spec fn spec_ignored(ignores: Seq<String>, canon: Option<String>) -> bool {
    canon matches Some(c) && exists|i: int| 0 <= i < ignores.len() && ignores[i]@ == c@
}

impl Walker {
    /// A walker over the root directory (depth 0), with the given ignore
    /// set of canonical paths and depth bound.
    pub fn new(ignores: Vec<String>, max_depth: u16) -> (r: Walker)
        ensures
            r.sub@ == Seq::<SubFolder>::empty(),
            r.ignores@ == ignores@,
            r.max_depth == max_depth,
            r.current_depth == 0,
    {
        Walker { sub: Vec::new(), ignores, max_depth, current_depth: 0 }
    }

    /// Decides what to do with one entry of the directory being read.
    /// `canon` is the entry's canonical path when it could be resolved.
    ///
    /// An ignored entry changes nothing — in particular its subtree is
    /// never queued, so the walk yields nothing from it. A directory within
    /// the depth bound is pushed onto the stack one level deeper than the
    /// current directory; a file is yielded to the caller.
    pub fn on_entry(&mut self, path: String, canon: Option<&String>, is_dir: bool) -> (r:
        EntryAction)
        ensures
            final(self).ignores@ == old(self).ignores@,
            final(self).max_depth == old(self).max_depth,
            final(self).current_depth == old(self).current_depth,
            spec_ignored(old(self).ignores@, canon_view(canon)) ==> r == EntryAction::Ignored
                && final(self).sub@ == old(self).sub@,
            (!spec_ignored(old(self).ignores@, canon_view(canon)) && is_dir
                && old(self).current_depth < old(self).max_depth) ==> r == EntryAction::DirQueued
                && final(self).sub@ == old(self).sub@.push(
                (SubFolder { depth: (old(self).current_depth + 1) as u16, path: path }),
            ),
            (!spec_ignored(old(self).ignores@, canon_view(canon)) && is_dir
                && old(self).current_depth >= old(self).max_depth) ==> r == EntryAction::DirTooDeep
                && final(self).sub@ == old(self).sub@,
            (!spec_ignored(old(self).ignores@, canon_view(canon)) && !is_dir) ==> r
                == EntryAction::File && final(self).sub@ == old(self).sub@,
    {
        if let Some(c) = canon {
            if contains_string(&self.ignores, c) {
                return EntryAction::Ignored;
            }
        }
        proof {
            assert(!spec_ignored(self.ignores@, canon_view(canon)));
        }
        if is_dir {
            if self.current_depth < self.max_depth {
                let depth = self.current_depth + 1;
                self.sub.push(SubFolder { depth, path });
                return EntryAction::DirQueued;
            }
            return EntryAction::DirTooDeep;
        }
        EntryAction::File
    }

    /// Pops the most recently queued directory, which is visited next.
    pub fn next_folder(&mut self) -> (r: Option<SubFolder>)
        ensures
            final(self).ignores@ == old(self).ignores@,
            final(self).max_depth == old(self).max_depth,
            final(self).current_depth == old(self).current_depth,
            old(self).sub@.len() == 0 ==> r is None && final(self).sub@ == old(self).sub@,
            old(self).sub@.len() > 0 ==> (r matches Some(f) && f == old(self).sub@.last()
                && final(self).sub@ == old(self).sub@.drop_last()),
    {
        self.sub.pop()
    }

    /// Records that the caller managed to open a queued directory and now
    /// reads entries at its depth.
    pub fn enter(&mut self, depth: u16)
        ensures
            final(self).ignores@ == old(self).ignores@,
            final(self).max_depth == old(self).max_depth,
            final(self).sub@ == old(self).sub@,
            final(self).current_depth == depth,
    {
        self.current_depth = depth;
    }
}

/// The view of an optionally resolved canonical path.
pub open spec fn canon_view(canon: Option<&String>) -> Option<String> {
    match canon {
        Some(c) => Some(*c),
        None => None,
    }
}

/// Whether `items` holds a string equal to `target`.
pub fn contains_string(items: &Vec<String>, target: &String) -> (r: bool)
    ensures
        r == exists|i: int| 0 <= i < items@.len() && items@[i]@ == target@,
{
    let n = items.len();
    let mut k: usize = 0;
    while k < n
        invariant
            n == items@.len(),
            k <= n,
            forall|i: int| 0 <= i < k ==> items@[i]@ != target@,
        decreases n - k,
    {
        if items[k].eq(target) {
            return true;
        }
        k = k + 1;
    }
    false
}

} // verus!
