use sha2::{Digest, Sha256};
use thumper::digest::checksum_matches;
use thumper::sync::task::{Action, Event, Request, Task};

const PNG: [u8; 8] = [0x89, 0x50, 0x4E, 0x47, 0x0D, 0x0A, 0x1A, 0x0A];

#[test]
fn put_sniffs_mime_type_from_content() {
    let task = Task::Put { local: "image.bin".into(), remote: "img/logo".into() };
    let e = task.plan(PNG.to_vec());
    assert_eq!(e.remote, "img/logo");
    assert_eq!(e.action, Action::Put { content: PNG.to_vec(), mime_type: Some("image/png".to_string()) });
}

#[test]
fn put_of_plain_text_has_no_mime_type() {
    let task = Task::Put { local: "a.txt".into(), remote: "a.txt".into() };
    let e = task.plan(b"plain words".to_vec());
    assert_eq!(e.action, Action::Put { content: b"plain words".to_vec(), mime_type: None });
}

#[test]
fn delete_resolves_to_delete() {
    let task = Task::Delete { remote: "old".into() };
    let e = task.plan(Vec::new());
    assert_eq!(e.remote, "old");
    assert_eq!(e.action, Action::Delete);
    assert_eq!(task.local(), None);
}

#[test]
fn resolve_compares_given_digest() {
    let d = [7u8; 32];
    let task = Task::Replace { local: "l".into(), remote: "r".into(), remote_checksum: Some(d) };
    assert_eq!(task.resolve(vec![1, 2], None, &d).action, Action::Ignore);
    let mut other = d;
    other[31] = 8;
    assert_eq!(
        task.resolve(vec![1, 2], Some("text/x".into()), &other).action,
        Action::Put { content: vec![1, 2], mime_type: Some("text/x".into()) }
    );
    let none = Task::Replace { local: "l".into(), remote: "r".into(), remote_checksum: None };
    assert_eq!(none.resolve(vec![], None, &d).action, Action::Put { content: vec![], mime_type: None });
}

#[test]
fn checksum_gate() {
    let d = [1u8; 32];
    assert!(checksum_matches(&d, &Some(d)));
    assert!(!checksum_matches(&d, &Some([2u8; 32])));
    assert!(!checksum_matches(&d, &None));
}

#[test]
fn execute_uploads_changed_file() {
    let task = Task::Replace { local: "l".into(), remote: "a.css".into(), remote_checksum: None };
    let o = task.execute(b"body{}".to_vec(), false, &".thumper.lock".to_string());
    assert_eq!(o.remote, "a.css");
    assert_eq!(o.event, Event::Put);
    assert_eq!(o.event.as_str(), "put");
    assert_eq!(
        o.request,
        Some(Request::Upload {
            remote: "a.css".into(),
            content: b"body{}".to_vec(),
            content_type: "application/octet-stream".into()
        })
    );
}

#[test]
fn execute_skips_unchanged_file() {
    let sum: [u8; 32] = Sha256::digest(b"same").into();
    let task = Task::Replace { local: "l".into(), remote: "s".into(), remote_checksum: Some(sum) };
    let o = task.execute(b"same".to_vec(), false, &".lock".to_string());
    assert_eq!(o.event, Event::Unchanged);
    assert_eq!(o.event.as_str(), "unchanged");
    assert_eq!(o.request, None);
}

#[test]
fn execute_never_deletes_the_lock_marker() {
    let lockfile = ".thumper.lock".to_string();
    let task = Task::Delete { remote: lockfile.clone() };
    let o = task.execute(Vec::new(), false, &lockfile);
    assert_eq!(o.event, Event::Delete);
    assert_eq!(o.request, None);
    let other = Task::Delete { remote: "x".into() };
    let o = other.execute(Vec::new(), false, &lockfile);
    assert_eq!(o.event.as_str(), "delete");
    assert_eq!(o.request, Some(Request::Remove { remote: "x".into() }));
}

#[test]
fn dry_run_makes_no_calls() {
    let task = Task::Put { local: "l".into(), remote: "p.png".into() };
    let o = task.execute(PNG.to_vec(), true, &".lock".to_string());
    assert_eq!(o.event, Event::Put);
    assert_eq!(o.request, None);
    let o = Task::Delete { remote: "x".into() }.execute(Vec::new(), true, &".lock".to_string());
    assert_eq!(o.request, None);
}

#[test]
fn upload_carries_sniffed_content_type() {
    let task = Task::Put { local: "l".into(), remote: "p".into() };
    let o = task.execute(PNG.to_vec(), false, &".lock".to_string());
    assert_eq!(
        o.request,
        Some(Request::Upload { remote: "p".into(), content: PNG.to_vec(), content_type: "image/png".into() })
    );
}
