//! Finding the inputs: every regular file below a root directory whose
//! extension is the one asked for.
//!
//! The scanner reads no directory itself. It names the directory to list
//! next, takes the listing, and keeps the directories that are still to be
//! visited and the files that it has found.

use vstd::prelude::*;
use crate::bytes::views;
use crate::path::{has_extension, join, spec_extension, spec_join};

verus! {

/// What a directory entry is.
#[derive(Clone, Copy, Debug, PartialEq, Eq, Structural)]
pub enum EntryKind {
    /// A regular file.
    File,
    /// A directory.
    Directory,
    /// Anything else, such as a symbolic link.
    Other,
}

/// What an `Entry` stands for.
pub ghost struct EntryView {
    pub name: Seq<u8>,
    pub kind: EntryKind,
}

/// One entry of a directory: its name within the directory, and its kind.
#[derive(Clone, Debug, PartialEq, Eq)]
pub struct Entry {
    pub name: Vec<u8>,
    pub kind: EntryKind,
}

impl View for Entry {
    type V = EntryView;

    open spec fn view(&self) -> EntryView {
        EntryView { name: self.name@, kind: self.kind }
    }
}

/// What a listing stands for: the list of what its entries stand for.
pub open spec fn listing_view(entries: Seq<Entry>) -> Seq<EntryView> {
    Seq::new(entries.len(), |i: int| entries[i]@)
}

/// Maps an entry of the directory `dir` to its path if it is a regular file
/// with the given extension.
pub open spec fn matching_file(dir: Seq<u8>, extension: Seq<u8>) -> spec_fn(EntryView) -> Option<
    Seq<u8>,
> {
    |entry: EntryView|
        if entry.kind == EntryKind::File && spec_extension(entry.name) == Some(extension) {
            Some(spec_join(dir, entry.name))
        } else {
            None
        }
}

/// Maps an entry of the directory `dir` to its path if it is a directory.
pub open spec fn subdirectory(dir: Seq<u8>) -> spec_fn(EntryView) -> Option<Seq<u8>> {
    |entry: EntryView|
        if entry.kind == EntryKind::Directory {
            Some(spec_join(dir, entry.name))
        } else {
            None
        }
}

/// The paths of the regular files with the given extension among the entries
/// of `dir`, in the order of the listing.
pub open spec fn spec_matches(dir: Seq<u8>, entries: Seq<EntryView>, extension: Seq<u8>) -> Seq<
    Seq<u8>,
> {
    entries.filter_map(matching_file(dir, extension))
}

/// The paths of the directories among the entries of `dir`, in the order of
/// the listing.
pub open spec fn spec_subdirectories(dir: Seq<u8>, entries: Seq<EntryView>) -> Seq<Seq<u8>> {
    entries.filter_map(subdirectory(dir))
}

/// What a `Scanner` stands for.
pub ghost struct ScannerView {
    /// The extension that is looked for.
    pub extension: Seq<u8>,
    /// The directories that are still to be listed; the last one is next.
    pub pending: Seq<Seq<u8>>,
    /// The files found so far.
    pub found: Seq<Seq<u8>>,
}

impl ScannerView {
    /// The state before anything was listed.
    pub open spec fn start(root: Seq<u8>, extension: Seq<u8>) -> ScannerView {
        ScannerView { extension, pending: seq![root], found: Seq::empty() }
    }

    /// Tells whether every directory has been listed.
    pub open spec fn is_done(self) -> bool {
        self.pending.len() == 0
    }

    /// The state after the listing of the next directory has been taken in.
    /// The directory leaves the pending ones, its subdirectories join them,
    /// and its matching files join the found ones.
    pub open spec fn fed(self, entries: Seq<EntryView>) -> ScannerView {
        if self.pending.len() == 0 {
            self
        } else {
            let dir = self.pending.last();
            ScannerView {
                extension: self.extension,
                pending: self.pending.drop_last() + spec_subdirectories(dir, entries),
                found: self.found + spec_matches(dir, entries, self.extension),
            }
        }
    }
}

/// The state of a scan.
#[derive(Clone, Debug, PartialEq, Eq)]
pub struct Scanner {
    extension: Vec<u8>,
    pending: Vec<Vec<u8>>,
    found: Vec<Vec<u8>>,
}

impl View for Scanner {
    type V = ScannerView;

    closed spec fn view(&self) -> ScannerView {
        ScannerView {
            extension: self.extension@,
            pending: views(self.pending@),
            found: views(self.found@),
        }
    }
}

/// Taking one more entry into account adds what the entry maps to, if
/// anything, behind what the entries before it map to.
pub proof fn lemma_filter_map_take<A, B>(s: Seq<A>, f: spec_fn(A) -> Option<B>, i: int)
    requires
        0 <= i < s.len(),
    ensures
        s.take(i + 1).filter_map(f) == match f(s[i]) {
            Some(b) => s.take(i).filter_map(f).push(b),
            None => s.take(i).filter_map(f),
        },
{
    assert(s.take(i + 1).drop_last() =~= s.take(i));
    assert(s.take(i + 1).last() == s[i]);
    match f(s[i]) {
        Some(b) => {
            assert(s.take(i).filter_map(f) + seq![b] =~= s.take(i).filter_map(f).push(b));
        },
        None => {},
    }
}

impl Scanner {
    /// A scan of the directory `root` for files with the given extension.
    pub fn new(root: Vec<u8>, extension: Vec<u8>) -> (scanner: Scanner)
        ensures
            scanner@ == ScannerView::start(root@, extension@),
    {
        let mut pending: Vec<Vec<u8>> = Vec::new();
        pending.push(root);
        let found: Vec<Vec<u8>> = Vec::new();
        let scanner = Scanner { extension, pending, found };
        assert(scanner@.pending =~= seq![root@]);
        assert(scanner@.found =~= Seq::<Seq<u8>>::empty());
        scanner
    }

    /// The extension that is looked for.
    pub fn extension(&self) -> (extension: &Vec<u8>)
        ensures
            extension@ == self@.extension,
    {
        &self.extension
    }

    /// The directory to list next; `None` when the scan is complete.
    pub fn next_directory(&self) -> (next: Option<&Vec<u8>>)
        ensures
            match next {
                Some(dir) => !self@.is_done() && dir@ == self@.pending.last(),
                None => self@.is_done(),
            },
    {
        let n = self.pending.len();
        if n == 0 {
            None
        } else {
            Some(&self.pending[n - 1])
        }
    }

    /// The files found so far, in the order in which they were found.
    pub fn found(&self) -> (found: &Vec<Vec<u8>>)
        ensures
            views(found@) == self@.found,
            found.len() == self@.found.len(),
    {
        &self.found
    }

    /// The number of files found fits the machine.
    pub proof fn lemma_found_bounded(&self)
        ensures
            self@.found.len() <= usize::MAX,
    {
        assert(self.found.len() == self@.found.len());
    }

    /// Ends the scan and hands out the files found.
    pub fn into_found(self) -> (found: Vec<Vec<u8>>)
        ensures
            views(found@) == self@.found,
            found.len() == self@.found.len(),
    {
        self.found
    }

    /// Takes in the listing of the directory that `next_directory` named.
    /// A scanner that is done stays as it is.
    pub fn feed(&mut self, entries: &Vec<Entry>)
        ensures
            final(self)@ == old(self)@.fed(listing_view(entries@)),
    {
        let ghost before = self@;
        let ghost listing = listing_view(entries@);
        let dir = match self.pending.pop() {
            None => {
                return ;
            },
            Some(dir) => dir,
        };
        assert(dir@ == before.pending.last());
        assert(self@.pending =~= before.pending.drop_last());
        let mut i: usize = 0;
        while i < entries.len()
            invariant
                i <= entries.len(),
                listing == listing_view(entries@),
                self@.extension == before.extension,
                self@.pending == before.pending.drop_last() + spec_subdirectories(
                    dir@,
                    listing.take(i as int),
                ),
                self@.found == before.found + spec_matches(
                    dir@,
                    listing.take(i as int),
                    before.extension,
                ),
            decreases entries.len() - i,
        {
            let entry = &entries[i];
            let ghost pending = self@.pending;
            let ghost found = self@.found;
            proof {
                assert(listing[i as int] == entry@);
                lemma_filter_map_take(listing, subdirectory(dir@), i as int);
                lemma_filter_map_take(listing, matching_file(dir@, before.extension), i as int);
            }
            match entry.kind {
                EntryKind::Directory => {
                    let path = join(dir.as_slice(), entry.name.as_slice());
                    self.pending.push(path);
                    assert(self@.pending =~= pending.push(path@));
                    assert(self@.found =~= found);
                },
                EntryKind::File => {
                    if has_extension(entry.name.as_slice(), self.extension.as_slice()) {
                        let path = join(dir.as_slice(), entry.name.as_slice());
                        self.found.push(path);
                        assert(self@.found =~= found.push(path@));
                        assert(self@.pending =~= pending);
                    }
                },
                EntryKind::Other => {},
            }
            i += 1;
            assert(self@.pending =~= before.pending.drop_last() + spec_subdirectories(
                dir@,
                listing.take(i as int),
            ));
            assert(self@.found =~= before.found + spec_matches(
                dir@,
                listing.take(i as int),
                before.extension,
            ));
        }
        assert(listing.take(entries.len() as int) =~= listing);
    }
}

} // verus!
