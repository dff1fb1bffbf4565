use regen::{Entry, EntryKind, Scanner};

fn file(name: &[u8]) -> Entry {
    Entry { name: name.to_vec(), kind: EntryKind::File }
}

fn dir(name: &[u8]) -> Entry {
    Entry { name: name.to_vec(), kind: EntryKind::Directory }
}

fn other(name: &[u8]) -> Entry {
    Entry { name: name.to_vec(), kind: EntryKind::Other }
}

fn sorted(mut paths: Vec<Vec<u8>>) -> Vec<Vec<u8>> {
    paths.sort();
    paths
}

#[test]
fn new_scanner_asks_for_the_root() {
    let scanner = Scanner::new(b"root".to_vec(), b"ext".to_vec());
    assert_eq!(scanner.next_directory(), Some(&b"root".to_vec()));
    assert_eq!(scanner.found(), &Vec::<Vec<u8>>::new());
    assert_eq!(scanner.extension(), &b"ext".to_vec());
}

#[test]
fn empty_root_ends_the_scan() {
    let mut scanner = Scanner::new(b"root".to_vec(), b"ext".to_vec());
    scanner.feed(&vec![]);
    assert_eq!(scanner.next_directory(), None);
    assert_eq!(scanner.into_found(), Vec::<Vec<u8>>::new());
}

#[test]
fn matching_files_are_found_in_listing_order() {
    let mut scanner = Scanner::new(b"root".to_vec(), b"ext".to_vec());
    scanner.feed(&vec![file(b"b.ext"), file(b"skip.txt"), file(b"a.ext")]);
    assert_eq!(scanner.next_directory(), None);
    assert_eq!(scanner.into_found(), vec![b"root/b.ext".to_vec(), b"root/a.ext".to_vec()]);
}

#[test]
fn other_extensions_and_other_kinds_are_left_out() {
    let mut scanner = Scanner::new(b"r".to_vec(), b"ext".to_vec());
    scanner.feed(&vec![
        file(b"a.EXT"),
        file(b"a.ext2"),
        file(b"ext"),
        file(b".ext"),
        file(b"a.ext.bak"),
        other(b"link.ext"),
        file(b"yes.ext"),
    ]);
    assert_eq!(scanner.into_found(), vec![b"r/yes.ext".to_vec()]);
}

#[test]
fn directory_named_like_a_match_is_visited_and_not_returned() {
    let mut scanner = Scanner::new(b"r".to_vec(), b"ext".to_vec());
    scanner.feed(&vec![dir(b"d.ext")]);
    assert_eq!(scanner.found(), &Vec::<Vec<u8>>::new());
    assert_eq!(scanner.next_directory(), Some(&b"r/d.ext".to_vec()));
    scanner.feed(&vec![file(b"in.ext")]);
    assert_eq!(scanner.next_directory(), None);
    assert_eq!(scanner.into_found(), vec![b"r/d.ext/in.ext".to_vec()]);
}

#[test]
fn files_are_found_at_every_depth() {
    let mut scanner = Scanner::new(b"r".to_vec(), b"ext".to_vec());
    scanner.feed(&vec![file(b"top.ext"), dir(b"a"), dir(b"b")]);
    let mut listed = Vec::new();
    while let Some(next) = scanner.next_directory() {
        let next = next.clone();
        let listing = if next == b"r/a".to_vec() {
            vec![dir(b"deep"), file(b"one.ext"), file(b"not.txt")]
        } else if next == b"r/a/deep".to_vec() {
            vec![file(b"two.ext"), dir(b"deeper")]
        } else if next == b"r/a/deep/deeper".to_vec() {
            vec![file(b"three.ext")]
        } else if next == b"r/b".to_vec() {
            vec![]
        } else {
            panic!("unexpected directory");
        };
        listed.push(next);
        scanner.feed(&listing);
    }
    assert_eq!(
        sorted(listed),
        sorted(vec![
            b"r/a".to_vec(),
            b"r/a/deep".to_vec(),
            b"r/a/deep/deeper".to_vec(),
            b"r/b".to_vec()
        ])
    );
    assert_eq!(
        sorted(scanner.into_found()),
        sorted(vec![
            b"r/top.ext".to_vec(),
            b"r/a/one.ext".to_vec(),
            b"r/a/deep/two.ext".to_vec(),
            b"r/a/deep/deeper/three.ext".to_vec(),
        ])
    );
}

#[test]
fn last_subdirectory_is_listed_next() {
    let mut scanner = Scanner::new(b"r".to_vec(), b"ext".to_vec());
    scanner.feed(&vec![dir(b"a"), dir(b"b")]);
    assert_eq!(scanner.next_directory(), Some(&b"r/b".to_vec()));
    scanner.feed(&vec![dir(b"c")]);
    assert_eq!(scanner.next_directory(), Some(&b"r/b/c".to_vec()));
    scanner.feed(&vec![]);
    assert_eq!(scanner.next_directory(), Some(&b"r/a".to_vec()));
    scanner.feed(&vec![]);
    assert_eq!(scanner.next_directory(), None);
}

#[test]
fn feeding_a_finished_scanner_changes_nothing() {
    let mut scanner = Scanner::new(b"r".to_vec(), b"ext".to_vec());
    scanner.feed(&vec![file(b"a.ext")]);
    let before = scanner.clone();
    scanner.feed(&vec![file(b"late.ext"), dir(b"late")]);
    assert_eq!(scanner, before);
    assert_eq!(scanner.next_directory(), None);
}

#[test]
fn root_with_trailing_separator() {
    let mut scanner = Scanner::new(b"/".to_vec(), b"ext".to_vec());
    scanner.feed(&vec![file(b"a.ext")]);
    assert_eq!(scanner.into_found(), vec![b"/a.ext".to_vec()]);
}
