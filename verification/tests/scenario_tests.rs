//! End-to-end flows through the library's decision logic: what the sidecar
//! computes between reading a request and writing a response.

use nacos_adapter::fs::FsConfigProvider;
use nacos_adapter::httpapi::{changed_targets, immediate_body, notify_body, parse_timeout_header};
use nacos_adapter::manager::TargetManager;
use nacos_adapter::target::parse_listening_configs;

#[test]
fn filesystem_hit_then_change() {
    // A client fetched "a=1" from /tmp/n/public/g1/d1 and long-polls with
    // its digest; the file is rewritten to "a=2" and a refresh runs. The
    // poll must answer 200 with the percent-encoded wire form of the target.
    let mut provider = FsConfigProvider::new(64, "/tmp/n/".to_string());
    let mut manager = TargetManager::new();
    let path = provider.path_for("d1", "g1", None);
    let first = provider.store(path.clone(), 1, "a=1".to_string());
    assert_eq!(first.md5(), "3872c9ae3f427af0be0ead09d07ae2cf");

    // The listener body names the digest the client holds.
    let body = "d1\u{2}g1\u{2}3872c9ae3f427af0be0ead09d07ae2cf\u{1}";
    let records = parse_listening_configs(body).unwrap();
    assert_eq!(parse_timeout_header(&Some("60000".to_string())), 60000);

    // Registration plus an un-refreshed read: the digests still agree, so
    // there is no immediate update and the poll goes to sleep.
    let t = records[0].target();
    manager.register(t.clone(), records[0].md5.clone());
    let outcome = provider.probe(&path, false);
    assert_eq!(outcome.as_ref().unwrap().md5(), records[0].md5);
    let update_now = changed_targets(&records, &vec![outcome]);
    assert!(update_now.is_empty());

    // The file changes and a refresh cycle reads it back.
    assert!(provider.recheck(&path, 2).is_none());
    let fresh = provider.store(path.clone(), 2, "a=2".to_string());
    let (tx, mut rx) = tokio::sync::mpsc::channel::<()>(1);
    let to_read = manager.targets_to_refresh();
    assert_eq!(to_read.len(), 1);
    let changed = manager.record_refresh(&to_read[0], fresh.md5().to_string(), &tx);
    assert!(changed);

    // The woken poll answers with the percent-encoded wire form.
    assert_eq!(notify_body(&to_read[0]), "d1%02g1%02%01");

    // The cycle drains once the client re-registers with the new digest.
    drop(tx);
    manager.register(t, fresh.md5().to_string());
    assert!(matches!(rx.try_recv(), Err(tokio::sync::mpsc::error::TryRecvError::Disconnected)));
}

#[test]
fn stale_listener_gets_immediate_update() {
    // A listener that arrives already stale is answered at once, with the
    // percent-encoded concatenation of the changed targets.
    let mut provider = FsConfigProvider::new(64, "/tmp/n/".to_string());
    let path = provider.path_for("d1", "g1", None);
    provider.store(path.clone(), 1, "a=2".to_string());

    let records = parse_listening_configs("d1\u{2}g1\u{2}3872c9ae3f427af0be0ead09d07ae2cf\u{1}")
        .unwrap();
    let outcome = provider.probe(&path, false);
    let update_now = changed_targets(&records, &vec![outcome]);
    assert_eq!(update_now.len(), 1);
    assert_eq!(immediate_body(&update_now), "d1%02g1%02%01");
}

#[test]
fn unchanged_file_times_out_with_empty_body() {
    // The no-change flow: nothing mismatches now and the refresh publishes
    // nothing, so the poll runs to its timeout and answers empty.
    let mut provider = FsConfigProvider::new(64, "/tmp/n/".to_string());
    let mut manager = TargetManager::new();
    let path = provider.path_for("d1", "g1", None);
    let c = provider.store(path.clone(), 1, "a=1".to_string());

    let records = parse_listening_configs("d1\u{2}g1\u{2}3872c9ae3f427af0be0ead09d07ae2cf\u{1}")
        .unwrap();
    assert_eq!(parse_timeout_header(&Some("500".to_string())), 500);
    manager.register(records[0].target(), records[0].md5.clone());
    let update_now = changed_targets(&records, &vec![provider.probe(&path, false)]);
    assert!(update_now.is_empty());

    // The refresh revalidates by mtime and finds the same digest.
    let same = provider.recheck(&path, 1).unwrap();
    let (tx, mut rx) = tokio::sync::mpsc::channel::<()>(1);
    assert!(!manager.record_refresh(&records[0].target(), same.md5().to_string(), &tx));
    assert_eq!(same.md5(), c.md5());
    drop(tx);
    assert!(matches!(rx.try_recv(), Err(tokio::sync::mpsc::error::TryRecvError::Disconnected)));
}
