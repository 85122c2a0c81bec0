use vstd::prelude::*;

use crate::hexcode::{hex_encode, spec_hex_encode};
use crate::resolver::{Digest, ResolverError, ResolverItem, Signature};
use crate::source::Engine;
use crate::validator::{spec_opt_bytes, Validator};

verus! {

/// The sha256 digest of a byte sequence.  The digest is a function of the
/// input bytes alone; its value is not modelled here.
pub uninterp spec fn spec_sha256(data: Seq<u8>) -> Seq<u8>;

/// Relies on `sha2::Sha256`: the digest depends on the input bytes alone and
/// is always 32 bytes long.
#[verifier::external_body]
fn sha256_digest(data: &[u8]) -> (r: Vec<u8>)
    ensures
        r@ == spec_sha256(data@),
        r@.len() == 32,
{
    let mut h: sha2::Sha256 = sha2::digest::Digest::new();
    sha2::digest::Digest::update(&mut h, data);
    let z = sha2::digest::Digest::finalize(h);
    z.to_vec()
}

/// The engine identifier of the web2 backend.
pub fn engine() -> (r: Engine)
    ensures
        r@ == "web2"@,
{
    "web2".to_owned()
}

/// The default web2 implementation of [ResolverItem] is the
/// [Sha256ImmutableResolverItem].  It holds the sha256 hash of the content,
/// which is used as both the pointer and the integrity check of a resource
/// located at a normal web2 HTTP endpoint.
pub struct Sha256ImmutableResolverItem {
    /// The sha256 digest of the resource.
    pub key: Vec<u8>,
    /// The verbatim content of the resource.
    pub content: Option<Vec<u8>>,
}

impl Sha256ImmutableResolverItem {
    pub fn new(key: &Vec<u8>, content: Option<Vec<u8>>) -> (r: Self)
        ensures
            r.key@ == key@,
            r.content == content,
    {
        let k = key.clone();
        proof {
            assert(k@ =~= key@);
        }
        Sha256ImmutableResolverItem { key: k, content }
    }
}

impl ResolverItem for Sha256ImmutableResolverItem {
    open spec fn digest_spec(&self) -> Seq<u8> {
        self.key@
    }

    open spec fn pointer_spec(&self) -> Seq<char> {
        spec_hex_encode(self.key@)
    }

    open spec fn has_signature(&self) -> bool {
        true
    }

    open spec fn signature_spec(&self) -> Seq<u8> {
        Seq::empty()
    }

    fn digest(&self) -> (r: &Digest) {
        &self.key
    }

    fn signature(&self) -> (r: Result<Signature, ResolverError>) {
        Ok(Vec::new())
    }

    fn pointer(&self) -> (r: String) {
        hex_encode(self.key.as_slice())
    }
}

/// Byte-for-byte equality of two slices.
fn bytes_eq(a: &[u8], b: &[u8]) -> (r: bool)
    ensures
        r == (a@ == b@),
{
    if a.len() != b.len() {
        return false;
    }
    let n = a.len();
    let mut i: usize = 0;
    while i < n
        invariant
            n == a@.len(),
            a@.len() == b@.len(),
            i <= n,
            forall|j: int| 0 <= j < i ==> a@[j] == b@[j],
        decreases n - i,
    {
        if a[i] != b[i] {
            return false;
        }
        i += 1;
    }
    proof {
        assert(a@ =~= b@);
    }
    true
}

/// Validates content against a sha256 digest: content must hash to the
/// digest; absent content is not disqualifying.
pub struct Sha256ImmutableValidator {}

impl Validator for Sha256ImmutableValidator {
    open spec fn verify_spec(
        &self,
        digest: Seq<u8>,
        content: Option<Seq<u8>>,
        signature: Option<Seq<u8>>,
    ) -> bool {
        match content {
            Some(c) => digest == spec_sha256(c),
            None => true,
        }
    }

    fn verify(
        &self,
        digest: &Digest,
        content: Option<&Vec<u8>>,
        _signature: Option<&Signature>,
    ) -> (r: bool) {
        match content {
            Some(v) => {
                let z = sha256_digest(v.as_slice());
                bytes_eq(digest.as_slice(), z.as_slice())
            },
            None => true,
        }
    }
}

} // verus!
