use sha2::{Digest, Sha256};
use thumper::api::FileMeta;
use thumper::lock::{Lock, LockError};
use thumper::sync::plan::{plan_sync, Action, LocalFiles, RemoteFiles};
use thumper::sync::task::Task;

fn digest(bytes: &[u8]) -> [u8; 32] {
    Sha256::digest(bytes).into()
}

#[test]
fn plan_uploads_assets_then_pages_then_deletes() {
    let mut local = LocalFiles::new();
    local.insert("index.html".into(), "/site/index.html".into());
    local.insert("a.txt".into(), "/site/a.txt".into());
    let mut remote = RemoteFiles::new();
    remote.insert("old.txt".into(), FileMeta { checksum: Some(digest(b"X")) });
    let job = plan_sync(&local, &remote, &[]);
    assert_eq!(
        job,
        vec![
            Task::Put { local: "/site/a.txt".into(), remote: "a.txt".into() },
            Task::Put { local: "/site/index.html".into(), remote: "index.html".into() },
            Task::Delete { remote: "old.txt".into() },
        ]
    );
}

#[test]
fn plan_of_unchanged_file_is_skipped() {
    let content = b"unchanged content".to_vec();
    let sum = digest(&content);
    let mut local = LocalFiles::new();
    local.insert("x".into(), "/site/x".into());
    let mut remote = RemoteFiles::new();
    remote.insert("x".into(), FileMeta { checksum: Some(sum) });
    let job = plan_sync(&local, &remote, &[]);
    assert_eq!(
        job,
        vec![Task::Replace { local: "/site/x".into(), remote: "x".into(), remote_checksum: Some(sum) }]
    );
    let execution = job[0].plan(content);
    assert_eq!(execution.remote, "x");
    assert_eq!(execution.action, Action::Ignore);
}

#[test]
fn synced_remote_plans_only_skips() {
    let files = [("a.css", "body{}"), ("b.js", "run()"), ("index.html", "<html></html>")];
    let mut local = LocalFiles::new();
    let mut remote = RemoteFiles::new();
    for (name, body) in files.iter() {
        local.insert(name.to_string(), format!("/site/{name}"));
        remote.insert(name.to_string(), FileMeta { checksum: Some(digest(body.as_bytes())) });
    }
    remote.insert("keep/me.txt".into(), FileMeta { checksum: None });
    let job = plan_sync(&local, &remote, &["keep/".to_string()]);
    assert_eq!(job.len(), 3);
    for task in job.iter() {
        assert!(matches!(task, Task::Replace { .. }));
        let body = files.iter().find(|(n, _)| *n == task.remote().as_str()).unwrap().1;
        assert_eq!(task.plan(body.as_bytes().to_vec()).action, Action::Ignore);
    }
}

#[test]
fn plan_keeps_protected_remote_names() {
    let local = LocalFiles::new();
    let mut remote = RemoteFiles::new();
    remote.insert("assets/logo.png".into(), FileMeta { checksum: None });
    remote.insert("assets-old/logo.png".into(), FileMeta { checksum: None });
    remote.insert("docs/a.html".into(), FileMeta { checksum: None });
    let job = plan_sync(&local, &remote, &["assets".to_string()]);
    assert_eq!(job, vec![Task::Delete { remote: "docs/a.html".into() }]);
}

#[test]
fn plan_orders_names_within_groups() {
    let mut local = LocalFiles::new();
    for name in ["b.html", "z/a.htm", "b.css", "a.png", "a.html", "index.htmlx"] {
        local.insert(name.into(), String::new());
    }
    let remote = RemoteFiles::new();
    let job = plan_sync(&local, &remote, &[]);
    let names: Vec<&str> = job.iter().map(|t| t.remote().as_str()).collect();
    assert_eq!(names, vec!["a.png", "b.css", "index.htmlx", "a.html", "b.html", "z/a.htm"]);
}

#[test]
fn plan_one_task_per_name() {
    let mut local = LocalFiles::new();
    local.insert("both".into(), "/l/both".into());
    local.insert("new".into(), "/l/new".into());
    local.insert("new".into(), "/l/new2".into());
    let mut remote = RemoteFiles::new();
    remote.insert("both".into(), FileMeta { checksum: None });
    remote.insert("gone".into(), FileMeta { checksum: None });
    let job = plan_sync(&local, &remote, &[]);
    assert_eq!(
        job,
        vec![
            Task::Replace { local: "/l/both".into(), remote: "both".into(), remote_checksum: None },
            Task::Put { local: "/l/new2".into(), remote: "new".into() },
            Task::Delete { remote: "gone".into() },
        ]
    );
}

#[test]
fn plan_of_empty_trees_is_empty() {
    let job = plan_sync(&LocalFiles::new(), &RemoteFiles::new(), &[]);
    assert!(job.is_empty());
}

#[test]
fn lock_refused_when_marker_exists() {
    let r = Lock::new(".thumper.lock", Some("2024-01-01T00:00:00+00:00".into()), false, "now".into());
    assert_eq!(
        r.unwrap_err(),
        LockError::Held { lockfile: ".thumper.lock".into(), since: "2024-01-01T00:00:00+00:00".into() }
    );
}

#[test]
fn lock_forced_over_existing_marker() {
    let lock = Lock::new(".thumper.lock", Some("earlier".into()), true, "2025-05-05T10:00:00+02:00".into()).unwrap();
    assert_eq!(lock.lockfile(), ".thumper.lock");
    assert_eq!(lock.stamp(), "2025-05-05T10:00:00+02:00");
}

#[test]
fn lock_taken_when_no_marker() {
    let lock = Lock::new("custom.lock", None, false, "t0".into()).unwrap();
    assert_eq!(lock.lockfile(), "custom.lock");
    assert_eq!(lock.stamp(), "t0");
}
