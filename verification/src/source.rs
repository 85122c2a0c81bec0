use vstd::prelude::*;

use crate::endpoint::Endpoint;
use crate::keystore::Fingerprint;
use crate::timing::Scheduler;

verus! {

/// The [Engine] is used as a lookup key for resources of a particular source
/// backend, for example to retrieve pointers from a resolver registry when
/// building endpoint URLs.
pub type Engine = String;

/// [Source] encapsulates one or more endpoints to access content using a
/// particular storage backend [Engine].
///
/// A [Scheduler] may also be included to define with what delay endpoints
/// should be queried in sequence.  A source without a scheduler contributes
/// nothing to a generated request graph.
///
/// Lastly, an array of public key fingerprints may be provided to verify the
/// origin of the content.
pub struct Source {
    pub trusted_keys: Vec<Fingerprint>,
    pub endpoints: Vec<Endpoint>,
    pub timing: Option<Scheduler>,
    pub engine: Engine,
}

impl Source {
    /// A source for `engine` with no endpoints, no schedule and no trusted
    /// keys.
    pub fn new(engine: Engine) -> (r: Self)
        ensures
            r.trusted_keys@ == Seq::<Fingerprint>::empty(),
            r.endpoints@ == Seq::<Endpoint>::empty(),
            r.timing is None,
            r.engine@ == engine@,
    {
        Source { trusted_keys: vec![], endpoints: vec![], timing: None, engine }
    }
}

} // verus!
