//! What a scan finds in a directory tree.
//!
//! A tree is given by its listings: a function from the path of a directory
//! to the entries of that directory. The scanner is run against the listings
//! in specification, and it is proved that it ends with exactly the regular
//! files that have the extension, from every depth of the tree.

use vstd::prelude::*;
use vstd::multiset::Multiset;
use vstd::seq_lib::lemma_multiset_commutative;
use crate::path::{spec_extension, spec_join};
use crate::run::{ReplyView, RunView};
use crate::scanner::{EntryKind, EntryView, ScannerView, spec_matches, spec_subdirectories};

verus! {

/// Tells whether the entry at position `i` of a listing is a regular file
/// with the given extension.
pub open spec fn is_match(entries: Seq<EntryView>, i: int, extension: Seq<u8>) -> bool {
    0 <= i < entries.len() && entries[i].kind == EntryKind::File && spec_extension(
        entries[i].name,
    ) == Some(extension)
}

/// The matches of a listing are the paths of its regular files with the
/// extension, and of nothing else: no directory, no entry of another kind,
/// and no file with another extension or with none.
pub proof fn law_matches_are_matching_files(
    dir: Seq<u8>,
    entries: Seq<EntryView>,
    extension: Seq<u8>,
)
    ensures
        forall|path: Seq<u8>| #[trigger]
            spec_matches(dir, entries, extension).contains(path) <==> exists|i: int|
                #[trigger] is_match(entries, i, extension) && path == spec_join(
                    dir,
                    entries[i].name,
                ),
    decreases entries.len(),
{
    let found = spec_matches(dir, entries, extension);
    if entries.len() == 0 {
        assert forall|path: Seq<u8>| #[trigger] found.contains(path) <==> exists|i: int|
            #[trigger] is_match(entries, i, extension) && path == spec_join(
                dir,
                entries[i].name,
            ) by {
            assert(found =~= Seq::<Seq<u8>>::empty());
        }
    } else {
        let front = entries.drop_last();
        let last = entries.len() - 1;
        let before = spec_matches(dir, front, extension);
        law_matches_are_matching_files(dir, front, extension);
        assert forall|path: Seq<u8>| #[trigger] found.contains(path) <==> exists|i: int|
            #[trigger] is_match(entries, i, extension) && path == spec_join(
                dir,
                entries[i].name,
            ) by {
            let here = is_match(entries, last, extension) && path == spec_join(
                dir,
                entries[last].name,
            );
            assert(found.contains(path) <==> before.contains(path) || here) by {
                if is_match(entries, last, extension) {
                    let joined = spec_join(dir, entries[last].name);
                    assert(found == before + seq![joined]);
                    if before.contains(path) {
                        let k = choose|k: int| 0 <= k < before.len() && before[k] == path;
                        assert(found[k] == path);
                    }
                    if here {
                        assert(found[before.len() as int] == path);
                    }
                    if found.contains(path) {
                        let k = choose|k: int| 0 <= k < found.len() && found[k] == path;
                        if k < before.len() {
                            assert(before[k] == path);
                        }
                    }
                } else {
                    assert(found == before);
                }
            }
            if before.contains(path) {
                let i = choose|i: int|
                    #[trigger] is_match(front, i, extension) && path == spec_join(
                        dir,
                        front[i].name,
                    );
                assert(is_match(entries, i, extension));
            }
            if exists|i: int|
                #[trigger] is_match(entries, i, extension) && path == spec_join(
                    dir,
                    entries[i].name,
                ) {
                let i = choose|i: int|
                    #[trigger] is_match(entries, i, extension) && path == spec_join(
                        dir,
                        entries[i].name,
                    );
                if i < last {
                    assert(is_match(front, i, extension));
                }
            }
        }
    }
}

/// The tree below the directory `dir` has at most `depth` levels of
/// directories, `dir` itself counted.
pub open spec fn within_depth(
    listings: spec_fn(Seq<u8>) -> Seq<EntryView>,
    dir: Seq<u8>,
    depth: nat,
) -> bool
    decreases depth,
{
    depth > 0 && forall|i: int|
        0 <= i < spec_subdirectories(dir, listings(dir)).len() ==> within_depth(
            listings,
            #[trigger] spec_subdirectories(dir, listings(dir))[i],
            (depth - 1) as nat,
        )
}

/// The regular files with the given extension at any depth below `dir`, each
/// by its path, as often as the listings name it.
pub open spec fn files_below(
    listings: spec_fn(Seq<u8>) -> Seq<EntryView>,
    dir: Seq<u8>,
    extension: Seq<u8>,
    depth: nat,
) -> Multiset<Seq<u8>>
    decreases depth, 0nat,
{
    if depth == 0 {
        Multiset::empty()
    } else {
        spec_matches(dir, listings(dir), extension).to_multiset().add(
            files_below_each(
                listings,
                spec_subdirectories(dir, listings(dir)),
                extension,
                (depth - 1) as nat,
            ),
        )
    }
}

/// The regular files with the given extension below any of `dirs`.
pub open spec fn files_below_each(
    listings: spec_fn(Seq<u8>) -> Seq<EntryView>,
    dirs: Seq<Seq<u8>>,
    extension: Seq<u8>,
    depth: nat,
) -> Multiset<Seq<u8>>
    decreases depth, 1 + dirs.len(),
{
    if dirs.len() == 0 {
        Multiset::empty()
    } else {
        files_below_each(listings, dirs.drop_last(), extension, depth).add(
            files_below(listings, dirs.last(), extension, depth),
        )
    }
}

/// The scanner after up to `steps` further listings, each the listing of the
/// directory that the scanner asked for. A scanner that is done stays as it
/// is.
pub open spec fn scan(
    scanner: ScannerView,
    listings: spec_fn(Seq<u8>) -> Seq<EntryView>,
    steps: nat,
) -> ScannerView
    decreases steps,
{
    if steps == 0 || scanner.is_done() {
        scanner
    } else {
        scan(scanner.fed(listings(scanner.pending.last())), listings, (steps - 1) as nat)
    }
}

/// Scanning for `a + b` steps is scanning for `a` steps and then for `b`.
pub proof fn lemma_scan_split(
    scanner: ScannerView,
    listings: spec_fn(Seq<u8>) -> Seq<EntryView>,
    a: nat,
    b: nat,
)
    ensures
        scan(scanner, listings, a + b) == scan(scan(scanner, listings, a), listings, b),
    decreases a,
{
    if a == 0 {
    } else if scanner.is_done() {
        assert(scan(scanner, listings, b) == scanner) by {
            if b > 0 {
            }
        }
    } else {
        lemma_scan_split(
            scanner.fed(listings(scanner.pending.last())),
            listings,
            (a - 1) as nat,
            b,
        );
        assert((a + b - 1) as nat == (a - 1) as nat + b);
    }
}

/// A scanner whose last pending directories are `dirs` works them off in the
/// number of steps returned: it is then left with the directories before them,
/// and has found, besides what it had, the matching files below `dirs`.
pub proof fn lemma_scan_works_off(
    scanner: ScannerView,
    listings: spec_fn(Seq<u8>) -> Seq<EntryView>,
    rest: Seq<Seq<u8>>,
    dirs: Seq<Seq<u8>>,
    depth: nat,
) -> (steps: nat)
    requires
        scanner.pending == rest + dirs,
        forall|i: int| 0 <= i < dirs.len() ==> within_depth(listings, #[trigger] dirs[i], depth),
    ensures
        scan(scanner, listings, steps).extension == scanner.extension,
        scan(scanner, listings, steps).pending == rest,
        scan(scanner, listings, steps).found.to_multiset() == scanner.found.to_multiset().add(
            files_below_each(listings, dirs, scanner.extension, depth),
        ),
    decreases depth, dirs.len(),
{
    if dirs.len() == 0 {
        assert(rest + dirs =~= rest);
        assert(scanner.found.to_multiset().add(Multiset::empty()) =~= scanner.found.to_multiset());
        0
    } else {
        let dir = dirs.last();
        assert(scanner.pending.last() == dir);
        assert(within_depth(listings, dir, depth));
        let entries = listings(dir);
        let below = spec_subdirectories(dir, entries);
        let fed = scanner.fed(entries);
        assert(scanner.pending.drop_last() =~= rest + dirs.drop_last());
        assert(fed.pending == (rest + dirs.drop_last()) + below);
        let first = lemma_scan_works_off(
            fed,
            listings,
            rest + dirs.drop_last(),
            below,
            (depth - 1) as nat,
        );
        let middle = scan(fed, listings, first);
        let second = lemma_scan_works_off(middle, listings, rest, dirs.drop_last(), depth);
        lemma_scan_split(fed, listings, first, second);
        let steps = 1 + first + second;
        assert(scan(scanner, listings, steps) == scan(fed, listings, first + second));
        let extension = scanner.extension;
        let here = spec_matches(dir, entries, extension).to_multiset();
        let deeper = files_below_each(listings, below, extension, (depth - 1) as nat);
        let beside = files_below_each(listings, dirs.drop_last(), extension, depth);
        lemma_multiset_commutative(scanner.found, spec_matches(dir, entries, extension));
        assert(fed.found.to_multiset() == scanner.found.to_multiset().add(here));
        assert(middle.found.to_multiset() == fed.found.to_multiset().add(deeper));
        assert(scan(scanner, listings, steps).found.to_multiset()
            == middle.found.to_multiset().add(beside));
        assert(files_below(listings, dir, extension, depth) == here.add(deeper));
        assert(files_below_each(listings, dirs, extension, depth) == beside.add(
            here.add(deeper),
        ));
        assert(scanner.found.to_multiset().add(here).add(deeper).add(beside)
            =~= scanner.found.to_multiset().add(beside.add(here.add(deeper))));
        steps
    }
}

/// A scan of a directory tree finds exactly the regular files of the tree
/// that have the extension, from every depth, and nothing else.
///
/// Whatever tree of finite depth the listings describe, the scanner that
/// starts at `root` is done after the number of listings returned, and what
/// it has found then holds the same paths, each as often, as the matching
/// files below `root`.
pub proof fn law_scan_finds_matching_files(
    listings: spec_fn(Seq<u8>) -> Seq<EntryView>,
    root: Seq<u8>,
    extension: Seq<u8>,
    depth: nat,
) -> (steps: nat)
    requires
        within_depth(listings, root, depth),
    ensures
        scan(ScannerView::start(root, extension), listings, steps).is_done(),
        scan(ScannerView::start(root, extension), listings, steps).found.to_multiset()
            == files_below(listings, root, extension, depth),
{
    let start = ScannerView::start(root, extension);
    let dirs = seq![root];
    assert(start.pending =~= Seq::<Seq<u8>>::empty() + dirs);
    let steps = lemma_scan_works_off(start, listings, Seq::empty(), dirs, depth);
    assert(dirs.drop_last() =~= Seq::<Seq<u8>>::empty());
    assert(files_below_each(listings, dirs.drop_last(), extension, depth)
        =~= Multiset::<Seq<u8>>::empty());
    assert(start.found.to_multiset() =~= Multiset::<Seq<u8>>::empty()) by {
        broadcast use vstd::seq_lib::group_to_multiset_ensures;
    }
    assert(scan(start, listings, steps).found.to_multiset() =~= files_below(
        listings,
        root,
        extension,
        depth,
    ));
    steps
}

/// The run after up to `steps` listings, each the listing of the directory
/// that the run asked for. A run that is past its scan stays as it is.
pub open spec fn listed(
    run: RunView,
    listings: spec_fn(Seq<u8>) -> Seq<EntryView>,
    steps: nat,
) -> RunView
    decreases steps,
{
    if steps == 0 || !(run.phase is Scanning) {
        run
    } else {
        listed(
            run.step(ReplyView::Entries(listings(run.scanner.pending.last()))).0,
            listings,
            (steps - 1) as nat,
        )
    }
}

/// While a run scans, its scanner does what a scanner does alone, and the
/// run is past its scan as soon as the scanner is done.
pub proof fn lemma_run_scans(
    run: RunView,
    listings: spec_fn(Seq<u8>) -> Seq<EntryView>,
    steps: nat,
)
    requires
        run.wf(),
        run.phase is Scanning,
    ensures
        listed(run, listings, steps).scanner == scan(run.scanner, listings, steps),
        listed(run, listings, steps).wf(),
        listed(run, listings, steps).phase is Scanning <==> !scan(
            run.scanner,
            listings,
            steps,
        ).is_done(),
    decreases steps,
{
    if steps > 0 {
        let next = run.step(ReplyView::Entries(listings(run.scanner.pending.last()))).0;
        if next.phase is Scanning {
            lemma_run_scans(next, listings, (steps - 1) as nat);
        } else {
            assert(next.scanner.is_done());
            assert(listed(next, listings, (steps - 1) as nat) == next);
            assert(scan(next.scanner, listings, (steps - 1) as nat) == next.scanner);
        }
    }
}

/// The inputs of a pass over a directory tree are exactly the regular files
/// of the tree that have the extension, from every depth.
///
/// Whatever tree of finite depth the listings describe, the run that begins
/// at `root` is past its scan after the number of listings returned, and its
/// inputs then hold the same paths, each as often, as the matching files
/// below `root`.
pub proof fn law_pass_takes_matching_files(
    listings: spec_fn(Seq<u8>) -> Seq<EntryView>,
    root: Seq<u8>,
    extension: Seq<u8>,
    force_rebuild: bool,
    depth: nat,
) -> (steps: nat)
    requires
        within_depth(listings, root, depth),
    ensures
        !(listed(RunView::start(root, extension, force_rebuild), listings, steps).phase
            is Scanning),
        listed(
            RunView::start(root, extension, force_rebuild),
            listings,
            steps,
        ).inputs().to_multiset() == files_below(listings, root, extension, depth),
{
    let steps = law_scan_finds_matching_files(listings, root, extension, depth);
    lemma_run_scans(RunView::start(root, extension, force_rebuild), listings, steps);
    steps
}

} // verus!
