use server_manager::compose::{ComposeFileDiff, ComposeService, DiffResult, PushAction};
use server_manager::store::{ComposeFile, FileStore};

fn file(path: &str, content: &str) -> ComposeFile {
    ComposeFile::new(path.to_string(), content.to_string())
}

fn host_of(files: &[(&str, &str)]) -> FileStore {
    let mut store = FileStore::new();
    for (p, c) in files {
        assert!(store.add(file(p, c)));
    }
    store
}

fn summary(diffs: &[ComposeFileDiff]) -> Vec<(String, DiffResult, String)> {
    diffs
        .iter()
        .map(|d| (d.path.clone(), d.result, d.content.clone()))
        .collect()
}

fn service() -> ComposeService {
    ComposeService::new("/srv/compose".to_string())
}

#[test]
fn same_and_new_without_removed() {
    let host = host_of(&[("app/a.toml", "x")]);
    let client = vec![file("app/a.toml", "x"), file("app/b.toml", "y")];
    let diffs = service().calculate_diffs(&host, &client);
    assert_eq!(
        summary(&diffs),
        vec![
            ("app/a.toml".to_string(), DiffResult::Same, "x".to_string()),
            ("app/b.toml".to_string(), DiffResult::New, "y".to_string()),
        ]
    );
}

#[test]
fn unsubmitted_host_file_is_removed() {
    let host = host_of(&[("a.toml", "a"), ("b.toml", "b")]);
    let client = vec![file("a.toml", "a")];
    let diffs = service().calculate_diffs(&host, &client);
    assert_eq!(
        summary(&diffs),
        vec![
            ("a.toml".to_string(), DiffResult::Same, "a".to_string()),
            ("b.toml".to_string(), DiffResult::Removed, String::new()),
        ]
    );
}

#[test]
fn diff_partitions_every_path() {
    let host = host_of(&[("same", "1"), ("changed", "old"), ("gone", "z"), ("also_gone", "w")]);
    let client = vec![file("changed", "new"), file("fresh", "f"), file("same", "1")];
    let diffs = service().calculate_diffs(&host, &client);
    assert_eq!(
        summary(&diffs),
        vec![
            ("changed".to_string(), DiffResult::Modified, "new".to_string()),
            ("fresh".to_string(), DiffResult::New, "f".to_string()),
            ("same".to_string(), DiffResult::Same, "1".to_string()),
            ("gone".to_string(), DiffResult::Removed, String::new()),
            ("also_gone".to_string(), DiffResult::Removed, String::new()),
        ]
    );
}

#[test]
fn empty_submission_removes_everything() {
    let host = host_of(&[("x", "1"), ("dir/y", "2")]);
    let diffs = service().calculate_diffs(&host, &Vec::new());
    assert_eq!(
        summary(&diffs),
        vec![
            ("x".to_string(), DiffResult::Removed, String::new()),
            ("dir/y".to_string(), DiffResult::Removed, String::new()),
        ]
    );
}

#[test]
fn empty_host_makes_everything_new() {
    let host = FileStore::new();
    let client = vec![file("a", "1"), file("b", "")];
    let diffs = service().calculate_diffs(&host, &client);
    assert_eq!(
        summary(&diffs),
        vec![
            ("a".to_string(), DiffResult::New, "1".to_string()),
            ("b".to_string(), DiffResult::New, String::new()),
        ]
    );
}

#[test]
fn diff_of_one_file() {
    let host = host_of(&[("a", "1")]);
    let d = service().diff(&host, file("a", "2"));
    assert_eq!(d.result, DiffResult::Modified);
    assert_eq!(d.content, "2");
}

#[test]
fn got_removed_checks_submitted_paths() {
    let client = vec![file("a", "1"), file("b/c", "2")];
    assert!(!ComposeService::got_removed(&"b/c".to_string(), &client));
    assert!(ComposeService::got_removed(&"b".to_string(), &client));
}

#[test]
fn store_refuses_duplicate_path() {
    let mut store = host_of(&[("a", "1")]);
    assert!(!store.add(file("a", "2")));
    assert_eq!(store.len(), 1);
    assert_eq!(store.get(0).content, "1");
}

#[test]
fn push_actions_follow_status() {
    let s = service();
    let f = file("app/a.toml", "x");
    assert!(matches!(s.push_file(&f, DiffResult::Same), PushAction::Nothing));
    match s.push_file(&f, DiffResult::New) {
        PushAction::Write { path, content } => {
            assert_eq!(path, "app/a.toml");
            assert_eq!(content, "x");
        }
        _ => panic!("expected a write"),
    }
    match s.push_file(&f, DiffResult::Modified) {
        PushAction::Write { path, content } => {
            assert_eq!(path, "app/a.toml");
            assert_eq!(content, "x");
        }
        _ => panic!("expected a write"),
    }
    match s.push_file(&f, DiffResult::Removed) {
        PushAction::Delete { path } => assert_eq!(path, "app/a.toml"),
        _ => panic!("expected a delete"),
    }
}

#[test]
fn pushing_twice_equals_pushing_once() {
    let s = service();
    for status in [DiffResult::New, DiffResult::Modified] {
        let mut once = host_of(&[("a", "old"), ("b", "b")]);
        let mut twice = host_of(&[("a", "old"), ("b", "b")]);
        let f = file("a", "new");
        once.perform(&s.push_file(&f, status));
        twice.perform(&s.push_file(&f, status));
        twice.perform(&s.push_file(&f, status));
        assert_eq!(once.len(), twice.len());
        for i in 0..once.len() {
            assert_eq!(once.get(i).path, twice.get(i).path);
            assert_eq!(once.get(i).content, twice.get(i).content);
        }
        assert_eq!(once.get(0).content, "new");
    }
}

#[test]
fn push_then_diff_reports_same() {
    let s = service();
    let mut host = host_of(&[("a", "old"), ("gone", "g")]);
    let client = vec![file("a", "new"), file("b", "fresh")];
    let diffs = s.calculate_diffs(&host, &client);
    for (d, f) in diffs.iter().zip(client.iter()) {
        host.perform(&s.push_file(f, d.result));
    }
    let again = s.calculate_diffs(&host, &client);
    assert_eq!(again[0].result, DiffResult::Same);
    assert_eq!(again[1].result, DiffResult::Same);
}

#[test]
fn removed_then_resubmitted_is_new() {
    let s = service();
    let mut host = host_of(&[("a", "1"), ("gone", "g")]);
    let client = vec![file("a", "1")];
    let diffs = s.calculate_diffs(&host, &client);
    assert_eq!(diffs[1].result, DiffResult::Removed);
    let removed = file(&diffs[1].path, &diffs[1].content);
    host.perform(&s.push_file(&removed, DiffResult::Removed));
    assert_eq!(host.find(&"gone".to_string()), None);
    let resubmitted = vec![file("a", "1"), file("gone", "g")];
    let again = s.calculate_diffs(&host, &resubmitted);
    assert_eq!(again[1].result, DiffResult::New);
}

#[test]
fn deleting_absent_path_is_no_error() {
    let mut host = host_of(&[("a", "1")]);
    host.delete(&"missing".to_string());
    assert_eq!(host.len(), 1);
}

#[test]
fn host_path_joins_root() {
    assert_eq!(service().host_path(&"app/a.toml".to_string()), "/srv/compose/app/a.toml");
}

#[test]
fn diff_result_codes() {
    assert_eq!(DiffResult::from(0), DiffResult::New);
    assert_eq!(DiffResult::from(1), DiffResult::Same);
    assert_eq!(DiffResult::from(2), DiffResult::Modified);
    assert_eq!(DiffResult::from(3), DiffResult::Removed);
    assert_eq!(DiffResult::from(9), DiffResult::Same);
    assert_eq!(DiffResult::Removed.code(), 3);
    assert_eq!(DiffResult::New.code(), 0);
}
