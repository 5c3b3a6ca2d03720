//! The decisions of a breadth-first directory walk.
//!
//! The walk itself (opening folders, reading their entries) is done by the
//! caller; the tree decides, for every entry read, whether it is handed out
//! and whether its folder is queued for a later visit.  Symbolic links are
//! not treated specially.

use vstd::prelude::*;
use std::collections::VecDeque;
use crate::glob::{GlobList, any_matches};

verus! {

/// What kind of file system item an entry is.
#[derive(Debug, Clone, Copy, PartialEq, Eq, Structural)]
pub enum EntryKind {
    File,
    Dir,
    /// Neither a file nor a folder (or its kind could not be read).
    Other,
}

/// What the walk knows of one entry of a folder.
#[derive(Debug)]
pub struct Entry {
    /// The full path of the entry, as its bytes.
    pub path: Vec<u8>,
    /// The last component of the path, if it has one.
    pub name: Option<String>,
    pub kind: EntryKind,
}

/// What to do with an entry.
#[derive(Debug, Clone, Copy, PartialEq, Eq, Structural)]
pub enum Visit {
    /// Hand the entry out.
    Yield,
    /// Pass over the entry.
    Skip,
}

/// A breadth-first walk over the folders below `root` (paths are held as
/// their bytes).
pub struct DirectoryTree {
    pub root: Vec<u8>,
    /// Folders still to be read, oldest first.
    pub remaining_dirs: VecDeque<Vec<u8>>,
    recursive_skip_folders: GlobList,
    recursive_skip_files: GlobList,
    recursive: bool,
}

/// Whether an entry with this name is passed over by `skip`: an entry
/// without a name always is.
pub open spec fn skipped_by(skip: Seq<Seq<char>>, name: Option<String>) -> bool {
    match name {
        Some(n) => any_matches(skip, n@),
        None => true,
    }
}

impl DirectoryTree {
    /// The folder the walk started from.
    pub closed spec fn root_path(&self) -> Seq<u8> {
        self.root@
    }

    /// Folders still to be read, oldest first.
    pub closed spec fn queue(&self) -> Seq<Seq<u8>> {
        self.remaining_dirs@.map_values(|d: Vec<u8>| d@)
    }

    /// Folder-name patterns that are not descended into.
    pub closed spec fn skip_folders(&self) -> Seq<Seq<char>> {
        self.recursive_skip_folders@
    }

    /// File-name patterns that are not handed out.
    pub closed spec fn skip_files(&self) -> Seq<Seq<char>> {
        self.recursive_skip_files@
    }

    /// Whether folders found during the walk are descended into.
    pub closed spec fn is_recursive(&self) -> bool {
        self.recursive
    }

    /// The decision for `entry`, and the queue after it.
    pub open spec fn decides(&self, entry: Entry, visit: Visit, after: Seq<Seq<u8>>) -> bool {
        let before = self.queue();
        match entry.kind {
            EntryKind::File => {
                &&& visit == (if skipped_by(self.skip_files(), entry.name) {
                    Visit::Skip
                } else {
                    Visit::Yield
                })
                &&& after == before
            },
            EntryKind::Dir => {
                if self.is_recursive() {
                    if skipped_by(self.skip_folders(), entry.name) {
                        visit == Visit::Skip && after == before
                    } else {
                        visit == Visit::Yield && after == before.push(entry.path@)
                    }
                } else {
                    visit == Visit::Yield && after == before
                }
            },
            EntryKind::Other => visit == Visit::Yield && after == before,
        }
    }

    fn make(root: Vec<u8>, folders: GlobList, files: GlobList, recursive: bool) -> (r: DirectoryTree)
        ensures
            r.root_path() == root@,
            r.queue() == seq![root@],
            r.skip_folders() == folders@,
            r.skip_files() == files@,
            r.is_recursive() == recursive,
    {
        let mut remaining: VecDeque<Vec<u8>> = VecDeque::new();
        let first = root.clone();
        assert(first@ == root@);
        remaining.push_back(first);
        assert(remaining@.map_values(|d: Vec<u8>| d@) == seq![root@]);
        DirectoryTree {
            root,
            remaining_dirs: remaining,
            recursive_skip_folders: folders,
            recursive_skip_files: files,
            recursive,
        }
    }

    /// A walk over the entries of `root` only, skipping nothing.
    pub fn new(root: Vec<u8>) -> (r: DirectoryTree)
        ensures
            r.root_path() == root@,
            r.queue() == seq![root@],
            r.skip_folders() == Seq::<Seq<char>>::empty(),
            r.skip_files() == Seq::<Seq<char>>::empty(),
            !r.is_recursive(),
    {
        DirectoryTree::make(root, GlobList::new(), GlobList::new(), false)
    }

    /// A walk over everything below `root`, skipping nothing.
    pub fn recursive(root: Vec<u8>) -> (r: DirectoryTree)
        ensures
            r.root_path() == root@,
            r.queue() == seq![root@],
            r.skip_folders() == Seq::<Seq<char>>::empty(),
            r.skip_files() == Seq::<Seq<char>>::empty(),
            r.is_recursive(),
    {
        DirectoryTree::make(root, GlobList::new(), GlobList::new(), true)
    }

    /// A walk over everything below `root`, not descending into folders
    /// matched by `folders`.
    pub fn recursive_skip_folders(root: Vec<u8>, folders: GlobList) -> (r: DirectoryTree)
        ensures
            r.root_path() == root@,
            r.queue() == seq![root@],
            r.skip_folders() == folders@,
            r.skip_files() == Seq::<Seq<char>>::empty(),
            r.is_recursive(),
    {
        DirectoryTree::make(root, folders, GlobList::new(), true)
    }

    /// A walk over everything below `root`, not descending into folders
    /// matched by `folders` and not handing out files matched by `files`.
    pub fn recursive_skip_folders_and_files(root: Vec<u8>, folders: GlobList, files: GlobList) -> (r: DirectoryTree)
        ensures
            r.root_path() == root@,
            r.queue() == seq![root@],
            r.skip_folders() == folders@,
            r.skip_files() == files@,
            r.is_recursive(),
    {
        DirectoryTree::make(root, folders, files, true)
    }

    /// A walk over the entries of `root` only, not handing out files matched
    /// by `files` (`folders` is kept but unused, as folders are not
    /// descended into).
    pub fn skip_folders_and_files(root: Vec<u8>, folders: GlobList, files: GlobList) -> (r: DirectoryTree)
        ensures
            r.root_path() == root@,
            r.queue() == seq![root@],
            r.skip_folders() == folders@,
            r.skip_files() == files@,
            !r.is_recursive(),
    {
        DirectoryTree::make(root, folders, files, false)
    }

    /// The next folder to read, if any is left; it leaves the queue.
    pub fn next_dir(&mut self) -> (r: Option<Vec<u8>>)
        ensures
            match r {
                Some(d) => old(self).queue().len() > 0 && d@ == old(self).queue()[0]
                    && final(self).queue() == old(self).queue().subrange(
                    1,
                    old(self).queue().len() as int,
                ),
                None => old(self).queue().len() == 0 && final(self).queue()
                    == old(self).queue(),
            },
            final(self).root_path() == old(self).root_path(),
            final(self).skip_folders() == old(self).skip_folders(),
            final(self).skip_files() == old(self).skip_files(),
            final(self).is_recursive() == old(self).is_recursive(),
    {
        self.remaining_dirs.pop_front()
    }

    /// How many folders are still to be read.
    pub fn remaining_len(&self) -> (r: usize)
        ensures
            r == self.queue().len(),
    {
        self.remaining_dirs.len()
    }

    /// Decides what to do with `entry`: a file is handed out unless a skip
    /// pattern matches its name; in a recursive walk a folder is handed out
    /// and queued unless a skip-folder pattern matches its name; anything
    /// else is handed out.  A file without a name is passed over, and so is
    /// a folder without a name in a recursive walk.
    pub fn visit(&mut self, entry: Entry) -> (r: Visit)
        ensures
            old(self).decides(entry, r, final(self).queue()),
            final(self).root_path() == old(self).root_path(),
            final(self).skip_folders() == old(self).skip_folders(),
            final(self).skip_files() == old(self).skip_files(),
            final(self).is_recursive() == old(self).is_recursive(),
    {
        match entry.kind {
            EntryKind::File => {
                let skip = match &entry.name {
                    Some(n) => self.recursive_skip_files.any_match(n.as_str()),
                    None => true,
                };
                if skip {
                    Visit::Skip
                } else {
                    Visit::Yield
                }
            },
            EntryKind::Dir => {
                if self.recursive {
                    let skip = match &entry.name {
                        Some(n) => self.recursive_skip_folders.any_match(n.as_str()),
                        None => true,
                    };
                    if skip {
                        Visit::Skip
                    } else {
                        let ghost before = self.remaining_dirs@;
                        let ghost added = entry.path@;
                        self.remaining_dirs.push_back(entry.path);
                        assert(self.remaining_dirs@.map_values(|d: Vec<u8>| d@)
                            == before.map_values(|d: Vec<u8>| d@).push(added));
                        Visit::Yield
                    }
                } else {
                    Visit::Yield
                }
            },
            EntryKind::Other => Visit::Yield,
        }
    }
}

} // verus!
