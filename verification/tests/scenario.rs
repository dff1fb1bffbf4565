use regen::{
    process_dir, report, Action, Entry, EntryKind, Error, FileText, IoError, IoErrorKind,
    Processor, Reply, Span,
};
use std::collections::BTreeMap;

struct Stored {
    content: Vec<u8>,
    modified: u128,
    read_only: bool,
}

struct World {
    directories: BTreeMap<Vec<u8>, Vec<Entry>>,
    files: BTreeMap<Vec<u8>, Stored>,
    clock: u128,
    blocked_removal_of_read_only: bool,
    writes: Vec<Vec<u8>>,
    removals: Vec<Vec<u8>>,
    touched: Vec<Vec<u8>>,
}

fn missing() -> Reply {
    Reply::Failed(IoError::new(IoErrorKind::NotFound, "no such file or directory".to_string()))
}

fn blocked() -> Reply {
    Reply::Failed(IoError::new(IoErrorKind::PermissionDenied, "permission denied".to_string()))
}

impl World {
    fn new() -> World {
        World {
            directories: BTreeMap::new(),
            files: BTreeMap::new(),
            clock: 1000,
            blocked_removal_of_read_only: false,
            writes: Vec::new(),
            removals: Vec::new(),
            touched: Vec::new(),
        }
    }

    fn directory(&mut self, path: &[u8], entries: Vec<(&[u8], EntryKind)>) {
        let entries =
            entries.into_iter().map(|(name, kind)| Entry { name: name.to_vec(), kind }).collect();
        self.directories.insert(path.to_vec(), entries);
    }

    fn file(&mut self, path: &[u8], content: &[u8], modified: u128, read_only: bool) {
        self.files
            .insert(path.to_vec(), Stored { content: content.to_vec(), modified, read_only });
    }

    fn answer<T: Processor>(&mut self, processor: &T, action: Action) -> Reply {
        match action {
            Action::ListDirectory(path) => match self.directories.get(&path) {
                Some(entries) => Reply::Entries(entries.clone()),
                None => missing(),
            },
            Action::ModifiedTime(path) => match self.files.get(&path) {
                Some(stored) => Reply::Modified(stored.modified),
                None => missing(),
            },
            Action::Remove(path) => {
                self.touched.push(path.clone());
                match self.files.get(&path) {
                    None => missing(),
                    Some(stored) if stored.read_only && self.blocked_removal_of_read_only => {
                        blocked()
                    }
                    Some(_) => {
                        self.files.remove(&path);
                        self.removals.push(path);
                        Reply::Done
                    }
                }
            }
            Action::Load(path) => {
                self.touched.push(path.clone());
                match self.files.get(&path) {
                    Some(stored) => Reply::Content(stored.content.clone()),
                    None => missing(),
                }
            }
            Action::Create(path) => {
                self.touched.push(path.clone());
                self.clock += 1;
                let modified = self.clock;
                self.files.insert(path, Stored { content: Vec::new(), modified, read_only: false });
                Reply::Done
            }
            Action::Transform(input) => Reply::Transformed(processor.process(input)),
            Action::Write(path, bytes) => {
                self.touched.push(path.clone());
                self.clock += 1;
                let modified = self.clock;
                match self.files.get_mut(&path) {
                    Some(stored) if !stored.read_only => {
                        stored.content = bytes;
                        stored.modified = modified;
                        self.writes.push(path);
                        Reply::Done
                    }
                    Some(_) => blocked(),
                    None => missing(),
                }
            }
            Action::MakeReadOnly(path) => {
                self.touched.push(path.clone());
                match self.files.get_mut(&path) {
                    Some(stored) => {
                        stored.read_only = true;
                        Reply::Done
                    }
                    None => missing(),
                }
            }
            Action::Finish(_) => unreachable!(),
        }
    }

    fn pass<T: Processor>(&mut self, processor: &T, force: bool) -> Result<(), Error> {
        self.writes.clear();
        self.removals.clear();
        self.touched.clear();
        let (mut run, mut action) = process_dir(b"root", b"ext", force);
        loop {
            if let Action::Finish(outcome) = action {
                assert!(run.is_finished());
                return outcome;
            }
            let reply = self.answer(processor, action);
            let (next_run, next_action) = run.step(reply);
            run = next_run;
            action = next_action;
        }
    }
}

struct Upper;

impl Processor for Upper {
    fn process(&self, input: FileText) -> Result<Vec<u8>, Error> {
        Ok(input.text().to_ascii_uppercase())
    }
}

struct RejectsF;

impl Processor for RejectsF {
    fn process(&self, input: FileText) -> Result<Vec<u8>, Error> {
        if input.path().ends_with(b"f.ext") {
            Err(Error::Source(input, "bad token".to_string(), Span(4, 7)))
        } else {
            Ok(input.text().clone())
        }
    }
}

#[test]
fn empty_root_passes_clean_and_quiet() {
    let mut world = World::new();
    world.directory(b"root", vec![]);
    let outcome = world.pass(&Upper, false);
    assert_eq!(outcome, Ok(()));
    assert!(world.touched.is_empty());
    let r = report(&outcome);
    assert!(r.output.is_empty());
    assert_eq!(r.status, 0);
}

#[test]
fn newer_output_is_not_written_until_the_input_changes() {
    let t = 500;
    let mut world = World::new();
    world.directory(b"root", vec![(b"a.ext", EntryKind::File), (b"a.rs", EntryKind::File)]);
    world.file(b"root/a.ext", b"abc", t, false);
    world.file(b"root/a.rs", b"OLD", t + 1, true);

    assert_eq!(world.pass(&Upper, false), Ok(()));
    assert!(world.writes.is_empty());
    assert!(world.removals.is_empty());
    assert!(world.touched.is_empty());
    assert_eq!(world.files[&b"root/a.rs".to_vec()].content, b"OLD".to_vec());

    world.files.get_mut(&b"root/a.ext".to_vec()).unwrap().modified = t + 2;

    assert_eq!(world.pass(&Upper, false), Ok(()));
    assert_eq!(world.removals, vec![b"root/a.rs".to_vec()]);
    assert_eq!(world.writes, vec![b"root/a.rs".to_vec()]);
    let output = &world.files[&b"root/a.rs".to_vec()];
    assert_eq!(output.content, b"ABC".to_vec());
    assert!(output.read_only);
    assert!(output.modified >= t + 2);
}

#[test]
fn every_input_ends_with_a_locked_output_that_is_not_older() {
    let mut world = World::new();
    world.directory(
        b"root",
        vec![
            (b"a.ext", EntryKind::File),
            (b"sub", EntryKind::Directory),
            (b"notes.txt", EntryKind::File),
            (b"b.ext", EntryKind::File),
        ],
    );
    world.directory(b"root/sub", vec![(b"c.ext", EntryKind::File), (b"c.rs", EntryKind::File)]);
    world.file(b"root/a.ext", b"a", 10, false);
    world.file(b"root/b.ext", b"b", 20, false);
    world.file(b"root/b.rs", b"stale", 20, true);
    world.file(b"root/notes.txt", b"n", 5, false);
    world.file(b"root/sub/c.ext", b"c", 30, false);
    world.file(b"root/sub/c.rs", b"fresh", 31, true);

    assert_eq!(world.pass(&Upper, false), Ok(()));

    for (input, output) in [
        (b"root/a.ext".to_vec(), b"root/a.rs".to_vec()),
        (b"root/b.ext".to_vec(), b"root/b.rs".to_vec()),
        (b"root/sub/c.ext".to_vec(), b"root/sub/c.rs".to_vec()),
    ] {
        let source = &world.files[&input];
        let generated = &world.files[&output];
        assert!(generated.read_only);
        assert!(generated.modified >= source.modified);
    }
    assert_eq!(world.files[&b"root/a.rs".to_vec()].content, b"A".to_vec());
    assert_eq!(world.files[&b"root/b.rs".to_vec()].content, b"B".to_vec());
    assert_eq!(world.files[&b"root/sub/c.rs".to_vec()].content, b"fresh".to_vec());
    assert!(!world.files.contains_key(&b"root/notes.rs".to_vec()));
    let mut written = world.writes.clone();
    written.sort();
    assert_eq!(written, vec![b"root/a.rs".to_vec(), b"root/b.rs".to_vec()]);
}

#[test]
fn forced_pass_rebuilds_fresh_outputs_too() {
    let mut world = World::new();
    world.directory(b"root", vec![(b"a.ext", EntryKind::File)]);
    world.file(b"root/a.ext", b"abc", 10, false);
    world.file(b"root/a.rs", b"OLD", 99, true);
    assert_eq!(world.pass(&Upper, true), Ok(()));
    assert_eq!(world.writes, vec![b"root/a.rs".to_vec()]);
    assert_eq!(world.files[&b"root/a.rs".to_vec()].content, b"ABC".to_vec());
    assert!(world.files[&b"root/a.rs".to_vec()].read_only);
}

#[test]
fn read_only_output_whose_removal_is_blocked_does_not_end_the_pass_at_the_removal() {
    let mut world = World::new();
    world.blocked_removal_of_read_only = true;
    world.directory(b"root", vec![(b"a.ext", EntryKind::File)]);
    world.file(b"root/a.ext", b"abc", 10, false);
    world.file(b"root/a.rs", b"OLD", 10, true);
    assert_eq!(world.pass(&Upper, false), Ok(()));
    assert!(world.removals.is_empty());
    assert_eq!(world.files[&b"root/a.rs".to_vec()].content, b"ABC".to_vec());
    assert!(world.files[&b"root/a.rs".to_vec()].read_only);
}

#[test]
fn source_error_is_reported_and_stops_the_pass() {
    let mut world = World::new();
    world.directory(
        b"root",
        vec![(b"f.ext", EntryKind::File), (b"g.ext", EntryKind::File)],
    );
    world.file(b"root/f.ext", b"let x = ?;\nnext\n", 10, false);
    world.file(b"root/g.ext", b"fine\n", 10, false);

    let outcome = world.pass(&RejectsF, false);
    let r = report(&outcome);
    assert_eq!(
        r.output,
        b"root/f.ext:1:5: 1:7 error: bad token\n  let x = ?;\n      ^^^\n".to_vec()
    );
    assert_eq!(r.status, 1);
    assert!(world.writes.is_empty());
    assert!(!world.touched.contains(&b"root/g.ext".to_vec()));
    assert!(!world.touched.contains(&b"root/g.rs".to_vec()));
    assert!(!world.files.contains_key(&b"root/g.rs".to_vec()));
    assert!(!world.files[&b"root/f.rs".to_vec()].read_only);
}

#[test]
fn missing_root_is_reported_as_a_failure() {
    let mut world = World::new();
    let outcome = world.pass(&Upper, false);
    let r = report(&outcome);
    assert_eq!(r.output, b"no such file or directory\n".to_vec());
    assert_ne!(r.status, 0);
}

#[test]
fn failed_write_leaves_the_output_unlocked() {
    struct Fails;
    impl Processor for Fails {
        fn process(&self, _input: FileText) -> Result<Vec<u8>, Error> {
            Err(Error::Io(IoError::new(IoErrorKind::Other, "disk full".to_string())))
        }
    }
    let mut world = World::new();
    world.directory(b"root", vec![(b"a.ext", EntryKind::File)]);
    world.file(b"root/a.ext", b"abc", 10, false);
    let outcome = world.pass(&Fails, false);
    assert_eq!(
        outcome,
        Err(Error::Io(IoError::new(IoErrorKind::Other, "disk full".to_string())))
    );
    assert!(!world.files[&b"root/a.rs".to_vec()].read_only);
    assert!(world.writes.is_empty());
}
