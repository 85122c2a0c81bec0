use vstd::prelude::*;

use crate::resolver::{Digest, Signature};
use crate::web2::Sha256ImmutableValidator;

/// Resolver capability consumed by engine-specific validators.
pub mod resolver;

verus! {

/// The digest or signature bytes offered to a validator, where present.
pub open spec fn spec_opt_bytes(o: Option<&Vec<u8>>) -> Option<Seq<u8>> {
    match o {
        Some(v) => Some(v@),
        None => None,
    }
}

/// The [Validator] is optionally used with a result from a source to verify
/// the origin of content.
pub trait Validator {
    /// What this validator's check means for a digest, optional content and
    /// optional signature.
    spec fn verify_spec(
        &self,
        digest: Seq<u8>,
        content: Option<Seq<u8>>,
        signature: Option<Seq<u8>>,
    ) -> bool;

    /// Returns `true` if the content and signature pass verification against
    /// the [Digest] of the content.
    fn verify(&self, digest: &Digest, content: Option<&Vec<u8>>, signature: Option<&Signature>)
        -> (r: bool)
        ensures
            r == self.verify_spec(digest@, spec_opt_bytes(content), spec_opt_bytes(signature)),
    ;
}

/// The default value of [Validator], which performs no validation.
pub struct NoopValidator {}

impl Validator for NoopValidator {
    open spec fn verify_spec(
        &self,
        digest: Seq<u8>,
        content: Option<Seq<u8>>,
        signature: Option<Seq<u8>>,
    ) -> bool {
        true
    }

    fn verify(
        &self,
        digest: &Digest,
        _content: Option<&Vec<u8>>,
        _signature: Option<&Signature>,
    ) -> (r: bool) {
        true
    }
}

/// The validation capability attached to an endpoint: one of the closed set
/// of validators this crate ships, selected at construction time.
///
/// The core never invokes validation itself; the capability is carried for an
/// external fetch executor to apply to retrieved content.
#[derive(Clone, Copy, Debug)]
pub enum ValidatorKind {
    /// No validation; every fetch passes.
    Noop,
    /// Content must hash to the digest under sha256.
    Sha256Immutable,
}

impl ValidatorKind {
    /// What verification means for each member of the closed set.
    pub open spec fn verify_spec(
        &self,
        digest: Seq<u8>,
        content: Option<Seq<u8>>,
        signature: Option<Seq<u8>>,
    ) -> bool {
        match self {
            ValidatorKind::Noop => NoopValidator {}.verify_spec(digest, content, signature),
            ValidatorKind::Sha256Immutable => Sha256ImmutableValidator {}.verify_spec(
                digest,
                content,
                signature,
            ),
        }
    }

    /// Dispatch verification to the selected validator.
    pub fn verify(
        &self,
        digest: &Digest,
        content: Option<&Vec<u8>>,
        signature: Option<&Signature>,
    ) -> (r: bool)
        ensures
            r == self.verify_spec(digest@, spec_opt_bytes(content), spec_opt_bytes(signature)),
    {
        match self {
            ValidatorKind::Noop => NoopValidator {}.verify(digest, content, signature),
            ValidatorKind::Sha256Immutable => Sha256ImmutableValidator {}.verify(
                digest,
                content,
                signature,
            ),
        }
    }
}

} // verus!
