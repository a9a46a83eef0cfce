//! The upstream-passthrough config provider: the source of truth is a real
//! Nacos server reached over HTTP. The GET itself happens outside; this
//! module owns the cache, the cache keys and the request URL.

use vstd::prelude::*;

use crate::cache::evicted_from;
use crate::config::{md5_hex_of, Config};
use crate::encoding::{percent_encode, percent_encoded};

verus! {

/// The outside cache the upstream provider keeps its entries in.
pub type UpstreamCache = moka::sync::Cache<String, Config>;

/// What the upstream provider's cache holds: for each key, the cached
/// content and its digest.
pub uninterp spec fn proxy_cache_view(c: UpstreamCache) -> Map<Seq<char>, (Seq<char>, Seq<char>)>;

/// The view of a cache that holds nothing.
pub open spec fn empty_proxy_cache_view() -> Map<Seq<char>, (Seq<char>, Seq<char>)> {
    Map::empty()
}

/// Relies on `moka::sync::Cache::new`: a newly built cache is empty.
#[verifier::external_body]
fn proxy_cache_new(size: u64) -> (r: UpstreamCache)
    ensures
        proxy_cache_view(r) == empty_proxy_cache_view(),
{
    moka::sync::Cache::new(size)
}

/// Relies on `moka::sync::Cache::get`: the value bound to the key at the
/// call, or nothing; the maintenance it may trigger evicts entries, never
/// adds or changes them.
#[verifier::external_body]
fn proxy_cache_get(c: &mut UpstreamCache, key: &String) -> (r: Option<Config>)
    ensures
        evicted_from(proxy_cache_view(*final(c)), proxy_cache_view(*old(c))),
        match r {
            Some(v) => proxy_cache_view(*old(c)).dom().contains(key@) && proxy_cache_view(
                *old(c),
            )[key@] == (v.spec_content(), v.spec_md5()),
            None => !proxy_cache_view(*old(c)).dom().contains(key@),
        },
{
    c.get(key)
}

/// Relies on `moka::sync::Cache::insert`: binds the key to the value; the
/// size policy may evict entries (the new one included), never add or
/// change any.
#[verifier::external_body]
fn proxy_cache_insert(c: &mut UpstreamCache, key: String, value: Config)
    ensures
        evicted_from(
            proxy_cache_view(*final(c)),
            proxy_cache_view(*old(c)).insert(key@, (value.spec_content(), value.spec_md5())),
        ),
{
    c.insert(key, value)
}

/// The cache key of an entry: `{tenant_or_empty}/{group}/{data_id}`.
pub open spec fn proxy_key_of(
    data_id: Seq<char>,
    group: Seq<char>,
    tenant: Option<Seq<char>>,
) -> Seq<char> {
    (match tenant {
        Some(t) => t,
        None => Seq::<char>::empty(),
    }) + "/"@ + group + "/"@ + data_id
}

/// The URL asked of the upstream:
/// `{base}?dataId=<d>&group=<g>[&tenant=<t>]`, each value percent-encoded,
/// `tenant` omitted when absent.
pub open spec fn proxy_url_of(
    base: Seq<char>,
    data_id: Seq<char>,
    group: Seq<char>,
    tenant: Option<Seq<char>>,
) -> Seq<char> {
    base + "?dataId="@ + percent_encoded(data_id) + "&group="@ + percent_encoded(group) + (
    match tenant {
        Some(t) => "&tenant="@ + percent_encoded(t),
        None => Seq::<char>::empty(),
    })
}

/// The source of truth behind a real Nacos server, with its own
/// size-bounded content cache. A `refresh = true` get always refetches: the
/// upstream is the authority.
pub struct ProxyConfigProvider {
    cache: UpstreamCache,
    base: String,
}

impl ProxyConfigProvider {
    /// The cache's contents.
    pub closed spec fn cache_view(self) -> Map<Seq<char>, (Seq<char>, Seq<char>)> {
        proxy_cache_view(self.cache)
    }

    /// The config endpoint of the upstream server.
    pub closed spec fn spec_base(self) -> Seq<char> {
        self.base@
    }

    /// Every cached digest is the MD5 of its cached content.
    pub open spec fn wf(self) -> bool {
        forall|k: Seq<char>| #[trigger]
            self.cache_view().dom().contains(k) ==> self.cache_view()[k].1 == md5_hex_of(
                self.cache_view()[k].0,
            )
    }

    pub fn new(size: u64, addr: String) -> (r: Self)
        ensures
            r.wf(),
            r.spec_base() == "http://"@ + addr@ + "/nacos/v1/cs/configs"@,
            r.cache_view() == empty_proxy_cache_view(),
    {
        let mut base = "http://".to_owned();
        base.append(addr.as_str());
        base.append("/nacos/v1/cs/configs");
        ProxyConfigProvider { cache: proxy_cache_new(size), base }
    }

    pub fn base(&self) -> (r: &str)
        ensures
            r@ == self.spec_base(),
    {
        self.base.as_str()
    }

    /// The cache key of an entry.
    pub fn key_for(data_id: &str, group: &str, tenant: Option<&str>) -> (r: String)
        ensures
            r@ == proxy_key_of(
                data_id@,
                group@,
                match tenant {
                    Some(t) => Some(t@),
                    None => None,
                },
            ),
    {
        let mut r = String::new();
        match tenant {
            Some(t) => r.append(t),
            None => (),
        }
        r.append("/");
        r.append(group);
        r.append("/");
        r.append(data_id);
        proof {
            assert(r@ =~= proxy_key_of(
                data_id@,
                group@,
                match tenant {
                    Some(t) => Some(t@),
                    None => None,
                },
            ));
        }
        r
    }

    /// The URL to ask the upstream for an entry.
    pub fn url_for(&self, data_id: &str, group: &str, tenant: Option<&str>) -> (r: String)
        ensures
            r@ == proxy_url_of(
                self.spec_base(),
                data_id@,
                group@,
                match tenant {
                    Some(t) => Some(t@),
                    None => None,
                },
            ),
    {
        let mut r = self.base.clone();
        r.append("?dataId=");
        r.append(percent_encode(data_id).as_str());
        r.append("&group=");
        r.append(percent_encode(group).as_str());
        match tenant {
            Some(t) => {
                r.append("&tenant=");
                r.append(percent_encode(t).as_str());
            },
            None => (),
        }
        proof {
            assert(r@ =~= proxy_url_of(
                self.spec_base(),
                data_id@,
                group@,
                match tenant {
                    Some(t) => Some(t@),
                    None => None,
                },
            ));
        }
        r
    }

    /// The first step of a get: with `refresh = false` a cached entry is
    /// served as it stands; with `refresh = true`, or on a miss, the caller
    /// must perform the upstream GET and store what came back.
    pub fn lookup(&mut self, key: &String, refresh: bool) -> (r: Option<Config>)
        requires
            old(self).wf(),
        ensures
            final(self).wf(),
            final(self).spec_base() == old(self).spec_base(),
            evicted_from(final(self).cache_view(), old(self).cache_view()),
            match r {
                Some(c) => !refresh && c.wf() && old(self).cache_view().dom().contains(key@) && old(
                    self,
                ).cache_view()[key@] == (c.spec_content(), c.spec_md5()),
                None => refresh || !old(self).cache_view().dom().contains(key@),
            },
    {
        if refresh {
            return None;
        }
        let got = proxy_cache_get(&mut self.cache, key);
        proof {
            assert forall|k: Seq<char>| #[trigger]
                self.cache_view().dom().contains(k) implies self.cache_view()[k].1 == md5_hex_of(
                self.cache_view()[k].0,
            ) by {
                assert(old(self).cache_view().dom().contains(k));
            }
        }
        got
    }

    /// Stores what the upstream returned and hands it back with its digest.
    /// The upstream is the authority: the cache is replaced unconditionally.
    pub fn store(&mut self, key: String, content: String) -> (r: Config)
        requires
            old(self).wf(),
        ensures
            final(self).wf(),
            final(self).spec_base() == old(self).spec_base(),
            r.wf(),
            r.spec_content() == content@,
            evicted_from(
                final(self).cache_view(),
                old(self).cache_view().insert(key@, (content@, md5_hex_of(content@))),
            ),
    {
        let config = Config::new(content);
        let ghost inserted = old(self).cache_view().insert(
            key@,
            (config.spec_content(), config.spec_md5()),
        );
        proxy_cache_insert(&mut self.cache, key, config.clone());
        proof {
            assert forall|k: Seq<char>| #[trigger]
                self.cache_view().dom().contains(k) implies self.cache_view()[k].1 == md5_hex_of(
                self.cache_view()[k].0,
            ) by {
                assert(inserted.dom().contains(k) && self.cache_view()[k] == inserted[k]);
                if k != key@ {
                    assert(old(self).cache_view().dom().contains(k));
                }
            }
        }
        config
    }
}

} // verus!
