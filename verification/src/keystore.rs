use vstd::prelude::*;

verus! {

/// Verbatim public [Key] bytes.
pub type Key = Vec<u8>;

/// Context-dependent fingerprint of a public [Key].
pub type Fingerprint = Vec<u8>;

/// Manages public keys used by a validator to verify content provenance.
///
/// This crate ships no keystore implementation; the trait is the interface an
/// embedding application implements for its own key storage.
pub trait Keystore {
    /// Add a new public [Key].
    ///
    /// Returns the length of the [Key] added.
    fn add(key: Key) -> usize;

    /// Returns true if the public [Key] corresponding to the [Fingerprint]
    /// exists in the [Keystore].
    fn have(fp: Fingerprint) -> bool;

    /// Retrieve the [Key] corresponding to the given [Fingerprint].
    fn get(fp: Fingerprint) -> Result<Key, ()>;
}

} // verus!
