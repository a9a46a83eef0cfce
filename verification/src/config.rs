//! A single configuration entry: its full text together with the
//! lowercase-hex MD5 digest that serves as the opaque change token.

use vstd::prelude::*;

verus! {

/// The lowercase-hex MD5 digest of a text, as the `md5` crate renders it.
/// The digest is a function of the input alone.
pub uninterp spec fn md5_hex_of(content: Seq<char>) -> Seq<char>;

/// Relies on `md5::compute` and the `md5` crate's `LowerHex` rendering of a
/// digest: 32 lowercase hex digits for the 16 digest bytes, a function of the
/// input alone.
#[verifier::external_body]
fn compute_md5_hex(content: &str) -> (r: String)
    ensures
        r@ == md5_hex_of(content@),
{
    format!("{:x}", md5::compute(content))
}

/// The full text of one configuration entry plus its lowercase-hex MD5
/// digest. Immutable once constructed; the digest is computed only on
/// construction and is the identity of the content for change detection.
pub struct Config {
    content: String,
    md5: String,
}

impl Config {
    /// The digest field is always the MD5 of the content.
    pub open spec fn wf(&self) -> bool {
        self.spec_md5() == md5_hex_of(self.spec_content())
    }

    pub closed spec fn spec_content(&self) -> Seq<char> {
        self.content@
    }

    pub closed spec fn spec_md5(&self) -> Seq<char> {
        self.md5@
    }

    pub fn new(content: String) -> (r: Config)
        ensures
            r.wf(),
            r.spec_content() == content@,
    {
        let md5 = compute_md5_hex(content.as_str());
        Config { content, md5 }
    }

    pub fn content(&self) -> (r: &str)
        ensures
            r@ == self.spec_content(),
    {
        self.content.as_str()
    }

    pub fn md5(&self) -> (r: &str)
        ensures
            r@ == self.spec_md5(),
    {
        self.md5.as_str()
    }
}

impl Clone for Config {
    fn clone(&self) -> (r: Self)
        ensures
            r == *self,
    {
        Config { content: self.content.clone(), md5: self.md5.clone() }
    }
}

} // verus!
