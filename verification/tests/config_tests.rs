use nacos_adapter::config::Config;

#[test]
fn md5_of_known_content() {
    // The digest of "a=1" as the Nacos protocol exchanges it.
    let c = Config::new("a=1".to_string());
    assert_eq!(c.content(), "a=1");
    assert_eq!(c.md5(), "3872c9ae3f427af0be0ead09d07ae2cf");
}

#[test]
fn md5_of_empty_content() {
    let c = Config::new(String::new());
    assert_eq!(c.content(), "");
    assert_eq!(c.md5(), "d41d8cd98f00b204e9800998ecf8427e");
}

#[test]
fn md5_distinguishes_contents() {
    let a = Config::new("a=1".to_string());
    let b = Config::new("a=2".to_string());
    assert_ne!(a.md5(), b.md5());
    assert_eq!(a.md5().len(), 32);
    assert_eq!(b.md5().len(), 32);
}

#[test]
fn clone_keeps_content_and_digest() {
    let a = Config::new("k=v\nx=y".to_string());
    let b = a.clone();
    assert_eq!(a.content(), b.content());
    assert_eq!(a.md5(), b.md5());
}

#[test]
fn cache_value_binds_digest_to_content() {
    let v = nacos_adapter::cache::CacheValue::new(7, "a=1".to_string());
    assert_eq!(v.mtime, 7);
    assert_eq!(v.content, "a=1");
    assert_eq!(v.md5, "3872c9ae3f427af0be0ead09d07ae2cf");
}
