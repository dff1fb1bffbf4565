use regen::{
    process_dir, remove_old_file, Action, Entry, EntryKind, Error, FileText, IoError, IoErrorKind,
    Phase, Processor, Reply, Run, Span,
};

struct Upper;

impl Processor for Upper {
    fn process(&self, input: FileText) -> Result<Vec<u8>, Error> {
        Ok(input.text().to_ascii_uppercase())
    }
}

struct Rejects;

impl Processor for Rejects {
    fn process(&self, input: FileText) -> Result<Vec<u8>, Error> {
        Err(Error::Source(input, "bad token".to_string(), Span(4, 7)))
    }
}

fn file(name: &[u8]) -> Entry {
    Entry { name: name.to_vec(), kind: EntryKind::File }
}

fn failure(kind: IoErrorKind, message: &str) -> IoError {
    IoError::new(kind, message.to_string())
}

fn unexpected() -> Action {
    Action::Finish(Err(Error::Io(failure(
        IoErrorKind::Other,
        "reply does not answer the request",
    ))))
}

fn started(entries: Vec<Entry>, force: bool) -> (Run, Action) {
    let (run, action) = process_dir(b"root", b"ext", force);
    assert_eq!(action, Action::ListDirectory(b"root".to_vec()));
    run.step(Reply::Entries(entries))
}

#[test]
fn pass_begins_with_the_listing_of_the_root() {
    let (run, action) = process_dir(b"some/dir", b"ext", false);
    assert_eq!(action, Action::ListDirectory(b"some/dir".to_vec()));
    assert!(!run.is_finished());
    assert_eq!(run.inputs(), &Vec::<Vec<u8>>::new());
}

#[test]
fn empty_root_ends_clean() {
    let (run, action) = started(vec![], false);
    assert_eq!(action, Action::Finish(Ok(())));
    assert!(run.is_finished());
}

#[test]
fn subdirectories_are_listed_before_any_file_is_touched() {
    let entries = vec![
        file(b"a.ext"),
        Entry { name: b"sub".to_vec(), kind: EntryKind::Directory },
    ];
    let (run, action) = started(entries, false);
    assert_eq!(action, Action::ListDirectory(b"root/sub".to_vec()));
    let (run, action) = run.step(Reply::Entries(vec![file(b"b.ext")]));
    assert_eq!(action, Action::ModifiedTime(b"root/a.ext".to_vec()));
    assert_eq!(run.inputs(), &vec![b"root/a.ext".to_vec(), b"root/sub/b.ext".to_vec()]);
}

#[test]
fn failed_listing_ends_the_pass() {
    let (run, _) = process_dir(b"root", b"ext", false);
    let (run, action) = run.step(Reply::Failed(failure(IoErrorKind::PermissionDenied, "no")));
    assert_eq!(
        action,
        Action::Finish(Err(Error::Io(failure(IoErrorKind::PermissionDenied, "no"))))
    );
    assert!(run.is_finished());
}

#[test]
fn missing_root_ends_the_pass() {
    let (run, _) = process_dir(b"root", b"ext", true);
    let (_, action) = run.step(Reply::Failed(failure(IoErrorKind::NotFound, "no root")));
    assert_eq!(action, Action::Finish(Err(Error::Io(failure(IoErrorKind::NotFound, "no root")))));
}

#[test]
fn newer_output_is_left_alone() {
    let (run, action) = started(vec![file(b"a.ext")], false);
    assert_eq!(action, Action::ModifiedTime(b"root/a.ext".to_vec()));
    let (run, action) = run.step(Reply::Modified(100));
    assert_eq!(action, Action::ModifiedTime(b"root/a.rs".to_vec()));
    let (run, action) = run.step(Reply::Modified(101));
    assert_eq!(action, Action::Finish(Ok(())));
    assert!(run.is_finished());
}

#[test]
fn output_of_equal_age_is_rebuilt() {
    let (run, _) = started(vec![file(b"a.ext")], false);
    let (run, _) = run.step(Reply::Modified(100));
    let (_, action) = run.step(Reply::Modified(100));
    assert_eq!(action, Action::Remove(b"root/a.rs".to_vec()));
}

#[test]
fn older_output_is_rebuilt() {
    let (run, _) = started(vec![file(b"a.ext")], false);
    let (run, _) = run.step(Reply::Modified(102));
    let (_, action) = run.step(Reply::Modified(101));
    assert_eq!(action, Action::Remove(b"root/a.rs".to_vec()));
}

#[test]
fn pass_rebuilds_missing_output() {
    let (run, _) = started(vec![file(b"a.ext")], false);
    let (run, _) = run.step(Reply::Modified(0));
    let (_, action) = run.step(Reply::Failed(failure(IoErrorKind::NotFound, "no such file")));
    assert_eq!(action, Action::Remove(b"root/a.rs".to_vec()));
}

#[test]
fn unreadable_output_time_ends_the_pass() {
    for kind in [IoErrorKind::PermissionDenied, IoErrorKind::Other] {
        let (run, _) = started(vec![file(b"a.ext")], false);
        let (run, _) = run.step(Reply::Modified(5));
        let (run, action) = run.step(Reply::Failed(failure(kind, "stat failed")));
        assert_eq!(action, Action::Finish(Err(Error::Io(failure(kind, "stat failed")))));
        assert!(run.is_finished());
    }
}

#[test]
fn unreadable_input_time_ends_the_pass() {
    for kind in [IoErrorKind::NotFound, IoErrorKind::PermissionDenied, IoErrorKind::Other] {
        let (run, _) = started(vec![file(b"a.ext")], false);
        let (_, action) = run.step(Reply::Failed(failure(kind, "stat failed")));
        assert_eq!(action, Action::Finish(Err(Error::Io(failure(kind, "stat failed")))));
    }
}

#[test]
fn forced_run_asks_for_no_time() {
    let (_, action) = started(vec![file(b"a.ext")], true);
    assert_eq!(action, Action::Remove(b"root/a.rs".to_vec()));
}

#[test]
fn regeneration_step_by_step() {
    let (run, action) = started(vec![file(b"a.ext")], true);
    assert_eq!(action, Action::Remove(b"root/a.rs".to_vec()));
    let (run, action) = run.step(Reply::Done);
    assert_eq!(action, Action::Load(b"root/a.ext".to_vec()));
    let (run, action) = run.step(Reply::Content(b"abc".to_vec()));
    assert_eq!(action, Action::Create(b"root/a.rs".to_vec()));
    let (run, action) = run.step(Reply::Done);
    assert_eq!(
        action,
        Action::Transform(FileText::new(b"root/a.ext".to_vec(), b"abc".to_vec()))
    );
    let (run, action) = run.step(Reply::Transformed(Ok(b"ABC".to_vec())));
    assert_eq!(action, Action::Write(b"root/a.rs".to_vec(), b"ABC".to_vec()));
    let (run, action) = run.step(Reply::Done);
    assert_eq!(action, Action::MakeReadOnly(b"root/a.rs".to_vec()));
    assert!(!run.is_finished());
    let (run, action) = run.step(Reply::Done);
    assert_eq!(action, Action::Finish(Ok(())));
    assert!(run.is_finished());
}

#[test]
fn advance_runs_the_transformation() {
    let (run, _) = started(vec![file(b"a.ext")], true);
    let (run, _) = run.advance(&Upper, Reply::Done);
    let (run, action) = run.advance(&Upper, Reply::Content(b"abc".to_vec()));
    assert_eq!(action, Action::Create(b"root/a.rs".to_vec()));
    let (_, action) = run.advance(&Upper, Reply::Done);
    assert_eq!(action, Action::Write(b"root/a.rs".to_vec(), b"ABC".to_vec()));
}

#[test]
fn blocked_removal_is_tolerated() {
    for kind in [IoErrorKind::PermissionDenied, IoErrorKind::NotFound] {
        let (run, _) = started(vec![file(b"a.ext")], true);
        let (run, action) = run.step(Reply::Failed(failure(kind, "cannot remove")));
        assert_eq!(action, Action::Load(b"root/a.ext".to_vec()));
        assert!(!run.is_finished());
    }
}

#[test]
fn other_removal_failure_ends_the_pass() {
    let (run, _) = started(vec![file(b"a.ext")], true);
    let (run, action) = run.step(Reply::Failed(failure(IoErrorKind::Other, "is a directory")));
    assert_eq!(
        action,
        Action::Finish(Err(Error::Io(failure(IoErrorKind::Other, "is a directory"))))
    );
    assert!(run.is_finished());
}

#[test]
fn remove_old_file_judges_the_removal() {
    assert_eq!(remove_old_file(Ok(())), Ok(()));
    assert_eq!(remove_old_file(Err(failure(IoErrorKind::NotFound, "a"))), Ok(()));
    assert_eq!(remove_old_file(Err(failure(IoErrorKind::PermissionDenied, "b"))), Ok(()));
    assert_eq!(
        remove_old_file(Err(failure(IoErrorKind::Other, "c"))),
        Err(failure(IoErrorKind::Other, "c"))
    );
}

#[test]
fn failure_in_any_step_of_a_regeneration_ends_the_pass() {
    let replies: [fn() -> Reply; 5] = [
        || Reply::Done,
        || Reply::Content(b"abc".to_vec()),
        || Reply::Done,
        || Reply::Transformed(Ok(b"ABC".to_vec())),
        || Reply::Done,
    ];
    for failing in 1..=5 {
        let (mut run, _) = started(vec![file(b"a.ext"), file(b"b.ext")], true);
        for reply in replies.iter().take(failing) {
            let (next, action) = run.step(reply());
            assert!(!matches!(action, Action::Finish(_)));
            run = next;
        }
        let (run, action) = run.step(Reply::Failed(failure(IoErrorKind::Other, "broken")));
        assert_eq!(action, Action::Finish(Err(Error::Io(failure(IoErrorKind::Other, "broken")))));
        assert!(run.is_finished());
    }
}

#[test]
fn source_error_ends_the_pass_before_further_inputs() {
    let (run, action) = started(vec![file(b"f.ext"), file(b"g.ext")], true);
    assert_eq!(action, Action::Remove(b"root/f.rs".to_vec()));
    let (run, _) = run.advance(&Rejects, Reply::Done);
    let (run, _) = run.advance(&Rejects, Reply::Content(b"let x = ?;\n".to_vec()));
    let (run, action) = run.advance(&Rejects, Reply::Done);
    let input = FileText::new(b"root/f.ext".to_vec(), b"let x = ?;\n".to_vec());
    assert_eq!(
        action,
        Action::Finish(Err(Error::Source(input, "bad token".to_string(), Span(4, 7))))
    );
    assert!(run.is_finished());
    let (run, action) = run.advance(&Rejects, Reply::Done);
    assert_eq!(action, unexpected());
    assert!(run.is_finished());
}

#[test]
fn io_error_of_the_transformation_ends_the_pass() {
    let (run, _) = started(vec![file(b"a.ext")], true);
    let (run, _) = run.step(Reply::Done);
    let (run, _) = run.step(Reply::Content(vec![]));
    let (run, _) = run.step(Reply::Done);
    let error = Error::Io(failure(IoErrorKind::Other, "sink closed"));
    let (run, action) = run.step(Reply::Transformed(Err(error)));
    assert_eq!(action, Action::Finish(Err(Error::Io(failure(IoErrorKind::Other, "sink closed")))));
    assert!(run.is_finished());
}

#[test]
fn inputs_are_taken_one_after_the_other() {
    let (run, action) = started(vec![file(b"a.ext"), file(b"b.ext")], false);
    assert_eq!(action, Action::ModifiedTime(b"root/a.ext".to_vec()));
    let (run, _) = run.step(Reply::Modified(1));
    let (run, action) = run.step(Reply::Modified(2));
    assert_eq!(action, Action::ModifiedTime(b"root/b.ext".to_vec()));
    let (run, action) = run.step(Reply::Modified(3));
    assert_eq!(action, Action::ModifiedTime(b"root/b.rs".to_vec()));
    let (run, action) = run.step(Reply::Modified(3));
    assert_eq!(action, Action::Remove(b"root/b.rs".to_vec()));
    let (run, _) = run.step(Reply::Done);
    let (run, _) = run.step(Reply::Content(b"x".to_vec()));
    let (run, _) = run.step(Reply::Done);
    let (run, _) = run.step(Reply::Transformed(Ok(b"y".to_vec())));
    let (run, _) = run.step(Reply::Done);
    let (run, action) = run.step(Reply::Done);
    assert_eq!(action, Action::Finish(Ok(())));
    assert!(run.is_finished());
}

#[test]
fn reply_of_the_wrong_kind_ends_the_pass() {
    let (run, _) = process_dir(b"root", b"ext", false);
    let (run, action) = run.step(Reply::Done);
    assert_eq!(action, unexpected());
    assert!(run.is_finished());

    let (run, _) = started(vec![file(b"a.ext")], false);
    let (_, action) = run.step(Reply::Content(vec![]));
    assert_eq!(action, unexpected());

    let (run, _) = started(vec![file(b"a.ext")], true);
    let (_, action) = run.step(Reply::Modified(3));
    assert_eq!(action, unexpected());

    let (run, _) = started(vec![file(b"a.ext")], true);
    let (run, _) = run.step(Reply::Done);
    let (_, action) = run.step(Reply::Done);
    assert_eq!(action, unexpected());
}

#[test]
fn finished_pass_asks_for_nothing_more() {
    let (run, action) = started(vec![], false);
    assert_eq!(action, Action::Finish(Ok(())));
    let (run, action) = run.step(Reply::Entries(vec![file(b"late.ext")]));
    assert_eq!(action, unexpected());
    let (run, action) = run.step(Reply::Failed(failure(IoErrorKind::Other, "late")));
    assert_eq!(action, unexpected());
    assert!(run.is_finished());
    assert_eq!(run.inputs(), &Vec::<Vec<u8>>::new());
}

#[test]
fn run_tells_where_it_stands() {
    let (run, _) = process_dir(b"root", b"ext", false);
    assert_eq!(run.phase(), &Phase::Scanning);
    assert!(!run.force_rebuild());
    assert_eq!(run.current(), 0);
    let (run, _) = run.step(Reply::Entries(vec![file(b"a.ext"), file(b"b.ext")]));
    assert_eq!(run.phase(), &Phase::SourceTime);
    let (run, _) = run.step(Reply::Modified(4));
    assert_eq!(run.phase(), &Phase::OutputTime(4));
    let (run, _) = run.step(Reply::Modified(5));
    assert_eq!(run.current(), 1);
    assert_eq!(run.phase(), &Phase::SourceTime);

    let (run, _) = started(vec![file(b"a.ext")], true);
    assert!(run.force_rebuild());
    assert_eq!(run.phase(), &Phase::Removing);
    let (run, _) = run.step(Reply::Done);
    assert_eq!(run.phase(), &Phase::Loading);
    let (run, _) = run.step(Reply::Content(b"x".to_vec()));
    assert_eq!(
        run.phase(),
        &Phase::Creating(FileText::new(b"root/a.ext".to_vec(), b"x".to_vec()))
    );
    let (run, _) = run.step(Reply::Done);
    assert_eq!(run.phase(), &Phase::Transforming);
    let (run, _) = run.step(Reply::Transformed(Ok(vec![])));
    assert_eq!(run.phase(), &Phase::Writing);
    let (run, _) = run.step(Reply::Done);
    assert_eq!(run.phase(), &Phase::Locking);
    let (run, _) = run.step(Reply::Done);
    assert_eq!(run.phase(), &Phase::Finished);
}
