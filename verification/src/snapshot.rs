//! What was seen of the host's file system before something was decided.

use vstd::prelude::*;

use crate::text::{owned, same};

verus! {

/// A path that exists.
#[derive(Debug)]
pub struct Seen {
    pub path: String,
    /// Whether it is a directory.
    pub directory: bool,
}

/// The paths that were found. A path that is not among them does not exist.
#[derive(Debug)]
pub struct Snapshot {
    pub seen: Vec<Seen>,
}

/// Whether a path exists.
pub open spec fn exists_at(files: Snapshot, path: Seq<char>) -> bool {
    exists|i: int| 0 <= i < files.seen@.len() && (#[trigger] files.seen@[i]).path@ == path
}

/// Whether a path is a directory.
pub open spec fn is_dir_at(files: Snapshot, path: Seq<char>) -> bool {
    exists|i: int|
        0 <= i < files.seen@.len() && (#[trigger] files.seen@[i]).path@ == path
            && files.seen@[i].directory
}

impl Snapshot {
    /// Nothing exists.
    pub fn new() -> (files: Snapshot)
        ensures
            forall|path: Seq<char>| !#[trigger] exists_at(files, path),
            forall|path: Seq<char>| !#[trigger] is_dir_at(files, path),
    {
        Snapshot { seen: Vec::new() }
    }

    /// One more path that exists.
    pub fn with(self, path: &str, directory: bool) -> (files: Snapshot)
        ensures
            forall|other: Seq<char>| #[trigger]
                exists_at(files, other) == (exists_at(self, other) || other == path@),
            forall|other: Seq<char>| #[trigger]
                is_dir_at(files, other) == (is_dir_at(self, other) || (other == path@
                    && directory)),
    {
        let mut seen = self.seen;
        let ghost before = seen@;
        seen.push(Seen { path: owned(path), directory });
        let files = Snapshot { seen };
        proof {
            assert forall|other: Seq<char>| #[trigger] exists_at(files, other) == (exists_at(
                self,
                other,
            ) || other == path@) by {
                if exists_at(self, other) {
                    let i = choose|i: int|
                        0 <= i < before.len() && (#[trigger] before[i]).path@ == other;
                    assert(files.seen@[i] == before[i]);
                }
                if other == path@ {
                    assert(files.seen@[before.len() as int].path@ == other);
                }
                if exists_at(files, other) && other != path@ {
                    let i = choose|i: int|
                        0 <= i < files.seen@.len() && (#[trigger] files.seen@[i]).path@ == other;
                    assert(before[i].path@ == other);
                }
            }
            assert forall|other: Seq<char>| #[trigger] is_dir_at(files, other) == (is_dir_at(
                self,
                other,
            ) || (other == path@ && directory)) by {
                if is_dir_at(self, other) {
                    let i = choose|i: int|
                        0 <= i < before.len() && (#[trigger] before[i]).path@ == other
                            && before[i].directory;
                    assert(files.seen@[i] == before[i]);
                }
                if other == path@ && directory {
                    assert(files.seen@[before.len() as int].path@ == other);
                }
                if is_dir_at(files, other) && !(other == path@ && directory) {
                    let i = choose|i: int|
                        0 <= i < files.seen@.len() && (#[trigger] files.seen@[i]).path@ == other
                            && files.seen@[i].directory;
                    assert(before[i].path@ == other);
                }
            }
        }
        files
    }

    /// Whether a path exists.
    pub fn present(&self, path: &str) -> (result: bool)
        ensures
            result == exists_at(*self, path@),
    {
        let mut index: usize = 0;
        while index < self.seen.len()
            invariant
                index <= self.seen@.len(),
                forall|i: int| 0 <= i < index ==> (#[trigger] self.seen@[i]).path@ != path@,
            decreases self.seen@.len() - index,
        {
            if same(self.seen[index].path.as_str(), path) {
                return true;
            }
            index += 1;
        }
        false
    }

    /// Whether a path is a directory.
    pub fn is_dir(&self, path: &str) -> (result: bool)
        ensures
            result == is_dir_at(*self, path@),
    {
        let mut index: usize = 0;
        while index < self.seen.len()
            invariant
                index <= self.seen@.len(),
                forall|i: int|
                    0 <= i < index ==> !((#[trigger] self.seen@[i]).path@ == path@
                        && self.seen@[i].directory),
            decreases self.seen@.len() - index,
        {
            if same(self.seen[index].path.as_str(), path) && self.seen[index].directory {
                return true;
            }
            index += 1;
        }
        false
    }
}

} // verus!
