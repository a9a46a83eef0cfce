use nacos_adapter::config::Config;
use nacos_adapter::coordinator::{env_u64, extension_defers, should_refresh};
use nacos_adapter::manager::TargetManager;
use nacos_adapter::target::Target;

fn target(data_id: &str, group: &str, tenant: Option<&str>) -> Target {
    Target {
        data_id: data_id.to_string(),
        group: group.to_string(),
        tenant: tenant.map(|s| s.to_string()),
    }
}

fn completion() -> (tokio::sync::mpsc::Sender<()>, tokio::sync::mpsc::Receiver<()>) {
    tokio::sync::mpsc::channel(1)
}

#[test]
fn first_registration_creates_state() {
    let mut m = TargetManager::new();
    m.register(target("d1", "g1", None), "m1".to_string());
    let (client, latest, pending) = m.lookup(&target("d1", "g1", None)).unwrap();
    assert_eq!(client, "m1");
    assert_eq!(latest, "m1");
    assert!(!pending);
    assert!(m.lookup(&target("d2", "g1", None)).is_none());
}

#[test]
fn reregistration_overwrites_client_md5_only() {
    let mut m = TargetManager::new();
    m.register(target("d1", "g1", None), "m1".to_string());
    m.register(target("d1", "g1", None), "m2".to_string());
    let (client, latest, _) = m.lookup(&target("d1", "g1", None)).unwrap();
    assert_eq!(client, "m2");
    assert_eq!(latest, "m1");
}

#[test]
fn refresh_with_fresh_digest_publishes_and_advances_latest() {
    // The filesystem-hit-then-change flow: register with the digest of
    // "a=1", then a refresh reads "a=2".
    let mut m = TargetManager::new();
    let t = target("d1", "g1", None);
    let old = Config::new("a=1".to_string());
    let new = Config::new("a=2".to_string());
    m.register(t.clone(), old.md5().to_string());
    let (tx, _rx) = completion();
    let changed = m.record_refresh(&t, new.md5().to_string(), &tx);
    assert!(changed);
    let (client, latest, pending) = m.lookup(&t).unwrap();
    assert_eq!(client, old.md5());
    assert_eq!(latest, new.md5());
    assert!(pending);
}

#[test]
fn refresh_with_same_digest_is_a_no_op() {
    // No change, timeout: the file was not rewritten, so the refresh reads
    // the digest the client already has and publishes nothing.
    let mut m = TargetManager::new();
    let t = target("d1", "g1", None);
    let c = Config::new("a=1".to_string());
    m.register(t.clone(), c.md5().to_string());
    let (tx, _rx) = completion();
    assert!(!m.record_refresh(&t, c.md5().to_string(), &tx));
    let (_, latest, pending) = m.lookup(&t).unwrap();
    assert_eq!(latest, c.md5());
    assert!(!pending);
}

#[test]
fn refresh_of_unregistered_target_does_nothing() {
    let mut m = TargetManager::new();
    let (tx, _rx) = completion();
    assert!(!m.record_refresh(&target("d", "g", None), "m".to_string(), &tx));
    assert!(m.lookup(&target("d", "g", None)).is_none());
}

#[test]
fn catching_up_registration_clears_pending() {
    let mut m = TargetManager::new();
    let t = target("d1", "g1", None);
    m.register(t.clone(), "old".to_string());
    let (tx, _rx) = completion();
    assert!(m.record_refresh(&t, "new".to_string(), &tx));
    assert!(m.lookup(&t).unwrap().2);
    // A registration that still carries the stale digest keeps it pending.
    m.register(t.clone(), "other".to_string());
    assert!(m.lookup(&t).unwrap().2);
    // One that matches latest_md5 releases the handle.
    m.register(t.clone(), "new".to_string());
    assert!(!m.lookup(&t).unwrap().2);
}

#[test]
fn completion_channel_closes_when_pending_released() {
    let mut m = TargetManager::new();
    let t = target("d1", "g1", None);
    m.register(t.clone(), "old".to_string());
    let (tx, mut rx) = completion();
    assert!(m.record_refresh(&t, "new".to_string(), &tx));
    drop(tx);
    // The manager still holds its stored handle: the channel stays open.
    assert!(matches!(rx.try_recv(), Err(tokio::sync::mpsc::error::TryRecvError::Empty)));
    // The client catches up; the stored handle is dropped and the channel
    // closes, which is what ends the coordinator's drain.
    m.register(t.clone(), "new".to_string());
    assert!(matches!(rx.try_recv(), Err(tokio::sync::mpsc::error::TryRecvError::Disconnected)));
}

#[test]
fn targets_to_refresh_lists_registrations_in_order() {
    let mut m = TargetManager::new();
    m.register(target("d1", "g1", None), "a".to_string());
    m.register(target("d2", "g2", Some("ns")), "b".to_string());
    m.register(target("d1", "g1", None), "c".to_string());
    let ts = m.targets_to_refresh();
    assert_eq!(ts.len(), 2);
    assert!(ts[0] == target("d1", "g1", None));
    assert!(ts[1] == target("d2", "g2", Some("ns")));
}

#[test]
fn cooldown_gates_refresh_triggers() {
    // Two triggers 100 ms apart under a 1000 ms cooldown: only the first
    // acts; at 1100 ms a trigger acts again.
    assert!(should_refresh(0, 0));
    assert!(!should_refresh(100, 1000));
    assert!(should_refresh(1100, 1000));
    assert!(should_refresh(1000, 1000));
}

#[test]
fn extension_defers_to_enabled_proxy() {
    assert!(extension_defers(9000, 2000, 1000));
    assert!(!extension_defers(0, 2000, 1000));
    assert!(!extension_defers(9000, 500, 1000));
}

#[test]
fn env_values_parse_or_fall_back() {
    assert_eq!(env_u64(&Some("8848".to_string()), 0), 8848);
    assert_eq!(env_u64(&Some("not a number".to_string()), 64), 64);
    assert_eq!(env_u64(&Some(String::new()), 64), 64);
    assert_eq!(env_u64(&None, 10), 10);
}
