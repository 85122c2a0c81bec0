use vstd::prelude::*;

verus! {

/// Digest bytes as seen by the validator-facing resolver capability.
pub type Digest = Vec<u8>;

/// Signature bytes as seen by the validator-facing resolver capability.
pub type Signature = Vec<u8>;

/// Error raised by a validator-facing [Resolver].
#[derive(Debug)]
pub struct ResolverError;

/// The capability by which an engine-specific validator obtains the digest
/// and signature of the current resource.
pub trait Resolver {
    /// Whether a digest is available.
    spec fn digest_ok(&self) -> bool;

    /// The digest bytes, where available.
    spec fn digest_spec(&self) -> Seq<u8>;

    /// Whether signature data is available.
    spec fn signature_ok(&self) -> bool;

    /// The signature bytes, where available.
    spec fn signature_spec(&self) -> Seq<u8>;

    fn digest(&self) -> (r: Result<Digest, ResolverError>)
        ensures
            r is Ok <==> self.digest_ok(),
            r is Ok ==> r.unwrap()@ == self.digest_spec(),
    ;

    fn signature(&self) -> (r: Result<Signature, ResolverError>)
        ensures
            r is Ok <==> self.signature_ok(),
            r is Ok ==> r.unwrap()@ == self.signature_spec(),
    ;
}

/// Validator-facing resolver for immutable content addressed by its sha256
/// digest.  It carries no data yet: both lookups yield empty byte strings.
#[allow(dead_code)]
pub struct Sha256ImmutableResolver {
    key: Vec<u8>,
    content: Vec<u8>,
}

impl Resolver for Sha256ImmutableResolver {
    open spec fn digest_ok(&self) -> bool {
        true
    }

    open spec fn digest_spec(&self) -> Seq<u8> {
        Seq::empty()
    }

    open spec fn signature_ok(&self) -> bool {
        true
    }

    open spec fn signature_spec(&self) -> Seq<u8> {
        Seq::empty()
    }

    fn digest(&self) -> (r: Result<Digest, ResolverError>) {
        Ok(Vec::new())
    }

    fn signature(&self) -> (r: Result<Signature, ResolverError>) {
        Ok(Vec::new())
    }
}

} // verus!
