use sha2::{Digest, Sha256};
use thumper::api::FileMeta;
use thumper::sync::plan::{must_remove, plan_sync, Action, Execution, LocalFiles, RemoteFiles};
use thumper::sync::task::Task;

#[test]
fn plan_replaces_when_checksum_mismatch() {
    let content_remote = "hei";
    let remote_checksum: [u8; 32] = Sha256::digest(content_remote.as_bytes()).into();
    let local_content = "hallois";
    let local = "README.md".to_string();
    let plan = Task::Replace {
        local,
        remote: "remote".to_string(),
        remote_checksum: Some(remote_checksum),
    };
    let Execution { remote: _, action } = plan.plan(local_content.as_bytes().to_vec());
    assert_eq!(
        action,
        Action::Put {
            content: local_content.as_bytes().to_vec(),
            mime_type: None
        }
    );
}

#[test]
fn plan_ignores_when_checksum_match() {
    let content_remote = "hei";
    let remote_checksum: [u8; 32] = Sha256::digest(content_remote.as_bytes()).into();
    let local_content = "hei";
    let local = "README.md".to_string();
    let plan = Task::Replace {
        local,
        remote: "remote".to_string(),
        remote_checksum: Some(remote_checksum),
    };
    let Execution { remote: _, action } = plan.plan(local_content.as_bytes().to_vec());
    assert_eq!(action, Action::Ignore);
}

#[test]
fn plan_deletes_everything_with_empty_local() {
    let local = LocalFiles::new();
    let mut remote = RemoteFiles::new();
    remote.insert("subfolder/index.html".into(), FileMeta { checksum: None });
    let job = plan_sync(&local, &remote, &[]);
    assert_eq!(
        job,
        vec![Task::Delete {
            remote: "subfolder/index.html".to_string()
        }]
    );
}

#[test]
fn plan_skips_deleting_ignored_prefixes() {
    let local = LocalFiles::new();
    let mut remote = RemoteFiles::new();
    remote.insert("subfolder/index.html".into(), FileMeta { checksum: None });
    remote.insert(
        "other_subfolder/index.html".into(),
        FileMeta { checksum: None },
    );
    let job = plan_sync(&local, &remote, &["other_subfolder".into()]);
    assert_eq!(
        job,
        vec![Task::Delete {
            remote: "subfolder/index.html".to_string()
        }]
    );
}

#[test]
fn plan_syncs_missing_files() {
    let mut local = LocalFiles::new();
    local.insert("subfolder/index.html".into(), String::new());
    let remote = RemoteFiles::new();
    let job = plan_sync(&local, &remote, &[]);
    assert_eq!(
        job,
        vec![Task::Put {
            remote: "subfolder/index.html".to_string(),
            local: String::new()
        }]
    );
}

#[test]
fn plan_compares_files_in_both() {
    let mut local = LocalFiles::new();
    local.insert("subfolder/index.html".into(), String::new());
    let mut remote = RemoteFiles::new();
    remote.insert("subfolder/index.html".into(), FileMeta { checksum: None });
    let job = plan_sync(&local, &remote, &[]);
    assert_eq!(
        job,
        vec![Task::Replace {
            remote: "subfolder/index.html".to_string(),
            local: String::new(),
            remote_checksum: None
        }]
    );
}

#[test]
fn plan_sorts_html_files_last() {
    let mut local = LocalFiles::new();
    local.insert("z.txt".into(), String::new());
    local.insert("a.html".into(), String::new());
    local.insert("b.htm".into(), String::new());
    local.insert("c.jpg".into(), String::new());

    let remote = RemoteFiles::new();
    let job = plan_sync(&local, &remote, &[]);

    // Pages come last.
    assert_eq!(job[0].remote(), "c.jpg");
    assert_eq!(job[1].remote(), "z.txt");
    assert!(job[2].remote() == "a.html" || job[2].remote() == "b.htm");
    assert!(job[3].remote() == "a.html" || job[3].remote() == "b.htm");
}

#[test]
fn plan_replaces_when_remote_checksum_is_none() {
    let local_content = "content";
    let local = "README.md".to_string();
    let plan = Task::Replace {
        local,
        remote: "remote".to_string(),
        remote_checksum: None,
    };
    let execution = plan.plan(local_content.as_bytes().to_vec());
    assert_eq!(
        execution.action,
        Action::Put {
            content: local_content.as_bytes().to_vec(),
            mime_type: None
        }
    );
}

#[test]
fn plan_test_must_remove() {
    let mut local = LocalFiles::new();
    local.insert("file1.txt".into(), String::new());
    local.insert("file2.txt".into(), String::new());

    let mut remote = RemoteFiles::new();
    remote.insert("file1.txt".into(), FileMeta { checksum: None });
    remote.insert("file3.txt".into(), FileMeta { checksum: None });
    remote.insert("ignored/file4.txt".into(), FileMeta { checksum: None });

    let to_remove = must_remove(&local, &remote, &["ignored".to_string()]);

    assert_eq!(to_remove.len(), 1);
    assert!(to_remove.contains(&"file3.txt".to_string()));
}
