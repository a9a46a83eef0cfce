//! The filesystem config provider: entries live under
//! `{prefix}{tenant|public}/{group}/{data_id}` and the file's mtime is the
//! cache validator. The reads themselves (stat, read) happen outside; this
//! module owns the cache and every decision around it.

use vstd::prelude::*;

use crate::cache::evicted_from;
use crate::config::{md5_hex_of, Config};

verus! {

/// One cached binding of the filesystem provider: the file's mtime in
/// seconds as the validator, and the content with its digest.
#[derive(Clone)]
pub struct CacheValue {
    pub mtime: i64,
    pub config: Config,
}

impl CacheValue {
    pub open spec fn entry(&self) -> (int, Seq<char>, Seq<char>) {
        (self.mtime as int, self.config.spec_content(), self.config.spec_md5())
    }
}

/// The outside cache the filesystem provider keeps its entries in.
pub type ContentCache = moka::sync::Cache<String, CacheValue>;

/// What the filesystem provider's cache holds: for each path, the cached
/// mtime, content and digest.
pub uninterp spec fn fs_cache_view(c: ContentCache) -> Map<Seq<char>, (int, Seq<char>, Seq<char>)>;

/// The view of a cache that holds nothing.
pub open spec fn empty_fs_cache_view() -> Map<Seq<char>, (int, Seq<char>, Seq<char>)> {
    Map::empty()
}

/// Relies on `moka::sync::Cache::new`: a newly built cache is empty.
#[verifier::external_body]
fn fs_cache_new(size: u64) -> (r: ContentCache)
    ensures
        fs_cache_view(r) == empty_fs_cache_view(),
{
    moka::sync::Cache::new(size)
}

/// Relies on `moka::sync::Cache::get`: the value bound to the key at the
/// call, or nothing; the maintenance it may trigger evicts entries, never
/// adds or changes them.
#[verifier::external_body]
fn fs_cache_get(c: &mut ContentCache, key: &String) -> (r: Option<CacheValue>)
    ensures
        evicted_from(fs_cache_view(*final(c)), fs_cache_view(*old(c))),
        match r {
            Some(v) => fs_cache_view(*old(c)).dom().contains(key@) && fs_cache_view(*old(c))[key@]
                == v.entry(),
            None => !fs_cache_view(*old(c)).dom().contains(key@),
        },
{
    c.get(key)
}

/// Relies on `moka::sync::Cache::insert`: binds the key to the value; the
/// size policy may evict entries (the new one included), never add or
/// change any.
#[verifier::external_body]
fn fs_cache_insert(c: &mut ContentCache, key: String, value: CacheValue)
    ensures
        evicted_from(
            fs_cache_view(*final(c)),
            fs_cache_view(*old(c)).insert(key@, value.entry()),
        ),
{
    c.insert(key, value)
}

/// The key of an entry on the filesystem:
/// `{prefix}{tenant|public}/{group}/{data_id}`.
pub open spec fn fs_path_of(
    prefix: Seq<char>,
    data_id: Seq<char>,
    group: Seq<char>,
    tenant: Option<Seq<char>>,
) -> Seq<char> {
    prefix + (match tenant {
        Some(t) => t,
        None => "public"@,
    }) + "/"@ + group + "/"@ + data_id
}

/// The source of truth on a mounted filesystem, with its own size-bounded
/// content cache keyed by path and validated by mtime.
pub struct FsConfigProvider {
    cache: ContentCache,
    prefix: String,
}

impl FsConfigProvider {
    /// The cache's contents.
    pub closed spec fn cache_view(self) -> Map<Seq<char>, (int, Seq<char>, Seq<char>)> {
        fs_cache_view(self.cache)
    }

    /// The configured path prefix.
    pub closed spec fn spec_prefix(self) -> Seq<char> {
        self.prefix@
    }

    /// Every cached digest is the MD5 of its cached content.
    pub open spec fn wf(self) -> bool {
        forall|k: Seq<char>| #[trigger]
            self.cache_view().dom().contains(k) ==> self.cache_view()[k].2 == md5_hex_of(
                self.cache_view()[k].1,
            )
    }

    pub fn new(size: u64, prefix: String) -> (r: Self)
        ensures
            r.wf(),
            r.spec_prefix() == prefix@,
            r.cache_view() == empty_fs_cache_view(),
    {
        FsConfigProvider { cache: fs_cache_new(size), prefix }
    }

    pub fn prefix(&self) -> (r: &str)
        ensures
            r@ == self.spec_prefix(),
    {
        self.prefix.as_str()
    }

    /// The path an entry lives under.
    pub fn path_for(&self, data_id: &str, group: &str, tenant: Option<&str>) -> (r: String)
        ensures
            r@ == fs_path_of(
                self.spec_prefix(),
                data_id@,
                group@,
                match tenant {
                    Some(t) => Some(t@),
                    None => None,
                },
            ),
    {
        let mut r = self.prefix.clone();
        match tenant {
            Some(t) => r.append(t),
            None => r.append("public"),
        }
        r.append("/");
        r.append(group);
        r.append("/");
        r.append(data_id);
        proof {
            assert(r@ =~= fs_path_of(
                self.spec_prefix(),
                data_id@,
                group@,
                match tenant {
                    Some(t) => Some(t@),
                    None => None,
                },
            ));
        }
        r
    }

    /// The first step of a get: with `refresh = false` a cached entry is
    /// served as it stands; with `refresh = true`, or on a miss, the caller
    /// must stat the file and come back.
    pub fn probe(&mut self, path: &String, refresh: bool) -> (r: Option<Config>)
        requires
            old(self).wf(),
        ensures
            final(self).wf(),
            final(self).spec_prefix() == old(self).spec_prefix(),
            evicted_from(final(self).cache_view(), old(self).cache_view()),
            match r {
                Some(c) => !refresh && c.wf() && old(self).cache_view().dom().contains(path@)
                    && old(self).cache_view()[path@].1 == c.spec_content() && old(
                    self,
                ).cache_view()[path@].2 == c.spec_md5(),
                None => refresh || !old(self).cache_view().dom().contains(path@),
            },
    {
        if refresh {
            return None;
        }
        let got = fs_cache_get(&mut self.cache, path);
        proof {
            assert forall|k: Seq<char>| #[trigger]
                self.cache_view().dom().contains(k) implies self.cache_view()[k].2 == md5_hex_of(
                self.cache_view()[k].1,
            ) by {
                assert(old(self).cache_view().dom().contains(k));
            }
        }
        match got {
            Some(v) => Some(v.config),
            None => None,
        }
    }

    /// The second step of a `refresh = true` get, after the caller has
    /// stat'ed the file: a cached entry whose mtime matches is still
    /// current; otherwise the caller must read the file and store it.
    pub fn recheck(&mut self, path: &String, mtime: i64) -> (r: Option<Config>)
        requires
            old(self).wf(),
        ensures
            final(self).wf(),
            final(self).spec_prefix() == old(self).spec_prefix(),
            evicted_from(final(self).cache_view(), old(self).cache_view()),
            match r {
                Some(c) => c.wf() && old(self).cache_view().dom().contains(path@) && old(
                    self,
                ).cache_view()[path@] == (mtime as int, c.spec_content(), c.spec_md5()),
                None => !old(self).cache_view().dom().contains(path@) || old(
                    self,
                ).cache_view()[path@].0 != mtime as int,
            },
    {
        let got = fs_cache_get(&mut self.cache, path);
        proof {
            assert forall|k: Seq<char>| #[trigger]
                self.cache_view().dom().contains(k) implies self.cache_view()[k].2 == md5_hex_of(
                self.cache_view()[k].1,
            ) by {
                assert(old(self).cache_view().dom().contains(k));
            }
        }
        match got {
            Some(v) => if v.mtime == mtime {
                Some(v.config)
            } else {
                None
            },
            None => None,
        }
    }

    /// Stores content read from the file and returns it with its digest.
    pub fn store(&mut self, path: String, mtime: i64, content: String) -> (r: Config)
        requires
            old(self).wf(),
        ensures
            final(self).wf(),
            final(self).spec_prefix() == old(self).spec_prefix(),
            r.wf(),
            r.spec_content() == content@,
            evicted_from(
                final(self).cache_view(),
                old(self).cache_view().insert(
                    path@,
                    (mtime as int, content@, md5_hex_of(content@)),
                ),
            ),
    {
        let config = Config::new(content);
        let value = CacheValue { mtime, config: config.clone() };
        let ghost inserted = old(self).cache_view().insert(path@, value.entry());
        fs_cache_insert(&mut self.cache, path, value);
        proof {
            assert forall|k: Seq<char>| #[trigger]
                self.cache_view().dom().contains(k) implies self.cache_view()[k].2 == md5_hex_of(
                self.cache_view()[k].1,
            ) by {
                assert(inserted.dom().contains(k) && self.cache_view()[k] == inserted[k]);
                if k != path@ {
                    assert(old(self).cache_view().dom().contains(k));
                }
            }
        }
        config
    }
}

} // verus!
