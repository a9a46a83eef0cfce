//! The size-bounded content cache both providers keep, backed by an outside
//! LRU-class cache. The cache may drop entries at any call (eviction), never
//! invent or alter them; each provider's view function names what it holds.

use vstd::prelude::*;

use crate::config::{md5_hex_of, Config};

verus! {

/// The outside cache both providers store their entries in.
#[verifier::external_type_specification]
#[verifier::external_body]
#[verifier::reject_recursive_types(K)]
#[verifier::reject_recursive_types(V)]
#[verifier::reject_recursive_types(S)]
pub struct ExMokaCache<K, V, S>(moka::sync::Cache<K, V, S>);

/// One cached binding: the file's mtime in seconds as the validator, the
/// content and its digest.
pub struct CacheValue {
    pub mtime: i64,
    pub content: String,
    pub md5: String,
}

impl CacheValue {
    /// The digest field is the MD5 of the content.
    pub open spec fn wf(&self) -> bool {
        self.md5@ == md5_hex_of(self.content@)
    }

    pub fn new(mtime: i64, content: String) -> (r: CacheValue)
        ensures
            r.wf(),
            r.mtime == mtime,
            r.content@ == content@,
    {
        let config = Config::new(content);
        let md5 = config.md5().to_owned();
        let content = config.content().to_owned();
        CacheValue { mtime, content, md5 }
    }
}

/// A cache after a call relates to the cache before it by eviction alone:
/// no entry appears or changes, entries may only go away.
pub open spec fn evicted_from<V>(new: Map<Seq<char>, V>, old: Map<Seq<char>, V>) -> bool {
    forall|k: Seq<char>|
        #[trigger] new.dom().contains(k) ==> old.dom().contains(k) && new[k] == old[k]
}

} // verus!
