use nacos_adapter::fs::FsConfigProvider;
use nacos_adapter::proxy::ProxyConfigProvider;

#[test]
fn fs_path_layout() {
    let p = FsConfigProvider::new(64, "/tmp/n/".to_string());
    assert_eq!(p.prefix(), "/tmp/n/");
    assert_eq!(p.path_for("d1", "g1", None), "/tmp/n/public/g1/d1");
    assert_eq!(p.path_for("d1", "g1", Some("ns")), "/tmp/n/ns/g1/d1");
}

#[test]
fn fs_store_then_probe_hits() {
    // Hit-then-change, provider side: the first store caches "a=1"; an
    // un-refreshed get serves it from the cache unchanged.
    let mut p = FsConfigProvider::new(64, "/tmp/n/".to_string());
    let path = p.path_for("d1", "g1", None);
    let stored = p.store(path.clone(), 1, "a=1".to_string());
    assert_eq!(stored.content(), "a=1");
    assert_eq!(stored.md5(), "3872c9ae3f427af0be0ead09d07ae2cf");
    let hit = p.probe(&path, false).unwrap();
    assert_eq!(hit.content(), "a=1");
    assert_eq!(hit.md5(), stored.md5());
}

#[test]
fn fs_probe_with_refresh_always_asks_for_a_stat() {
    let mut p = FsConfigProvider::new(64, "/tmp/n/".to_string());
    let path = p.path_for("d1", "g1", None);
    p.store(path.clone(), 1, "a=1".to_string());
    assert!(p.probe(&path, true).is_none());
}

#[test]
fn fs_recheck_validates_by_mtime() {
    let mut p = FsConfigProvider::new(64, "/tmp/n/".to_string());
    let path = p.path_for("d1", "g1", None);
    p.store(path.clone(), 7, "a=1".to_string());
    // Same mtime: the cached content is still current.
    let same = p.recheck(&path, 7).unwrap();
    assert_eq!(same.content(), "a=1");
    // The file was rewritten (mtime ticked): the entry must be re-read.
    assert!(p.recheck(&path, 8).is_none());
    // After re-reading, the new content replaces the old.
    let renewed = p.store(path.clone(), 8, "a=2".to_string());
    let hit = p.probe(&path, false).unwrap();
    assert_eq!(hit.content(), "a=2");
    assert_eq!(hit.md5(), renewed.md5());
}

#[test]
fn fs_probe_misses_unknown_path() {
    let mut p = FsConfigProvider::new(64, "/tmp/n/".to_string());
    let path = p.path_for("dx", "gx", None);
    assert!(p.probe(&path, false).is_none());
}

#[test]
fn proxy_base_and_keys() {
    let p = ProxyConfigProvider::new(64, "10.0.0.1:8848".to_string());
    assert_eq!(p.base(), "http://10.0.0.1:8848/nacos/v1/cs/configs");
    assert_eq!(ProxyConfigProvider::key_for("d1", "g1", None), "/g1/d1");
    assert_eq!(ProxyConfigProvider::key_for("d1", "g1", Some("ns")), "ns/g1/d1");
}

#[test]
fn proxy_url_percent_encodes_params() {
    let p = ProxyConfigProvider::new(64, "origin:8848".to_string());
    assert_eq!(
        p.url_for("d1", "g1", None),
        "http://origin:8848/nacos/v1/cs/configs?dataId=d1&group=g1"
    );
    assert_eq!(
        p.url_for("d 1", "g&1", Some("n/s")),
        "http://origin:8848/nacos/v1/cs/configs?dataId=d%201&group=g%261&tenant=n%2Fs"
    );
}

#[test]
fn proxy_store_then_lookup_hits() {
    let mut p = ProxyConfigProvider::new(64, "origin:8848".to_string());
    let key = ProxyConfigProvider::key_for("d1", "g1", None);
    let stored = p.store(key.clone(), "a=1".to_string());
    let hit = p.lookup(&key, false).unwrap();
    assert_eq!(hit.content(), "a=1");
    assert_eq!(hit.md5(), stored.md5());
    // A refresh always goes back to the upstream: the upstream is the
    // authority.
    assert!(p.lookup(&key, true).is_none());
    assert!(p.lookup(&ProxyConfigProvider::key_for("dx", "gx", None), false).is_none());
}
