use vstd::prelude::*;

use crate::hexcode::{hex_decode, spec_hex_decode, valid_hex};
use crate::source::Engine;

verus! {

/// Digest bytes identifying content. No structural invariants beyond
/// byte-equality comparability.
pub type Digest = Vec<u8>;

/// Signature bytes over content. No structural invariants beyond
/// byte-equality comparability.
pub type Signature = Vec<u8>;

/// [ErrorDetail] adds detail to the [ResolverError] type raised on any error
/// occurring within the resolver module.
#[derive(Debug)]
pub enum ErrorDetail {
    /// A resolver item is already registered for the engine.
    EngineExistsError,
    /// No resolver item is registered for the named engine.
    UnknownEngineError(String),
}

/// [ResolverError] encapsulates any error raised within the resolver module.
#[derive(Debug)]
pub struct ResolverError {
    pub detail: ErrorDetail,
}

impl ResolverError {
    pub fn new(e: ErrorDetail) -> (r: ResolverError)
        ensures
            r.detail == e,
    {
        ResolverError { detail: e }
    }
}

/// [ResolverItem] represents the pointer to a resource for a specific source
/// engine.
///
/// A [Resolver] will hold one or more [ResolverItem]s, which will be visited
/// by the corresponding source object when traversing a request graph.
pub trait ResolverItem {
    /// The digest bytes of the content this item stands for.
    spec fn digest_spec(&self) -> Seq<u8>;

    /// The pointer string used to build endpoint URLs for this item.
    spec fn pointer_spec(&self) -> Seq<char>;

    /// Whether signature data is available for this item.
    spec fn has_signature(&self) -> bool;

    /// The signature bytes, where available.
    spec fn signature_spec(&self) -> Seq<u8>;

    /// Return the digest of the content in the context of the particular
    /// backend.
    fn digest(&self) -> (r: &Digest)
        ensures
            r@ == self.digest_spec(),
    ;

    /// Return the signature data for the content.
    ///
    /// It is possible that content will be missing a corresponding signature.
    /// If this is the case, it is up to the visitor to decide whether a
    /// missing signature constitutes validation by default or not.
    fn signature(&self) -> (r: Result<Signature, ResolverError>)
        ensures
            r is Ok <==> self.has_signature(),
            r is Ok ==> r.unwrap()@ == self.signature_spec(),
    ;

    /// Return the string representation of the digest in the format expected
    /// for building the endpoint URL.
    fn pointer(&self) -> (r: String)
        ensures
            r@ == self.pointer_spec(),
    ;
}

/// A resolver item that carries a hex digest in string form: the pointer is
/// the string as given, the digest its decoded bytes.
pub struct SimpleResolverItem {
    digest: Digest,
    src: String,
}

impl ResolverItem for SimpleResolverItem {
    closed spec fn digest_spec(&self) -> Seq<u8> {
        self.digest@
    }

    closed spec fn pointer_spec(&self) -> Seq<char> {
        self.src@
    }

    closed spec fn has_signature(&self) -> bool {
        false
    }

    closed spec fn signature_spec(&self) -> Seq<u8> {
        Seq::empty()
    }

    fn digest(&self) -> (r: &Digest) {
        &self.digest
    }

    fn pointer(&self) -> (r: String) {
        self.src.clone()
    }

    fn signature(&self) -> (r: Result<Signature, ResolverError>) {
        Err(ResolverError { detail: ErrorDetail::UnknownEngineError("unimplemented".to_owned()) })
    }
}

impl SimpleResolverItem {
    /// Build an item from the hex string form of a digest; rejects strings
    /// that are not valid hex.
    pub fn new(content: String) -> (r: Option<SimpleResolverItem>)
        ensures
            r is Some <==> valid_hex(content@),
            r is Some ==> r.unwrap().pointer_spec() == content@,
            r is Some ==> r.unwrap().digest_spec() == spec_hex_decode(content@),
            r is Some ==> !r.unwrap().has_signature(),
    {
        match hex_decode(content.as_str()) {
            Some(d) => Some(SimpleResolverItem { digest: d, src: content }),
            None => None,
        }
    }
}

/// The registered engine identifiers of an association list, as a map to the
/// registered items.  A later entry for the same engine wins, though a
/// well-formed registry never holds two entries for one engine.
pub open spec fn engine_map<T>(s: Seq<(Engine, T)>) -> Map<Seq<char>, T>
    decreases s.len(),
{
    if s.len() == 0 {
        Map::empty()
    } else {
        engine_map(s.drop_last()).insert(s.last().0@, s.last().1)
    }
}

/// No two entries name the same engine.
pub open spec fn distinct_engines<T>(s: Seq<(Engine, T)>) -> bool {
    forall|i: int, j: int| 0 <= i < j < s.len() ==> s[i].0@ != s[j].0@
}

proof fn lemma_engine_map_contains_at<T>(s: Seq<(Engine, T)>, i: int)
    requires
        0 <= i < s.len(),
    ensures
        engine_map(s).dom().contains(s[i].0@),
    decreases s.len(),
{
    if i < s.len() - 1 {
        lemma_engine_map_contains_at(s.drop_last(), i);
        assert(s.drop_last()[i] == s[i]);
    }
}

proof fn lemma_engine_map_absent<T>(s: Seq<(Engine, T)>, k: Seq<char>)
    requires
        forall|i: int| 0 <= i < s.len() ==> s[i].0@ != k,
    ensures
        !engine_map(s).dom().contains(k),
    decreases s.len(),
{
    if s.len() > 0 {
        assert(forall|i: int| 0 <= i < s.drop_last().len() ==> s.drop_last()[i].0@ != k);
        lemma_engine_map_absent(s.drop_last(), k);
        assert(s[s.len() - 1].0@ != k);
    }
}

proof fn lemma_engine_map_index<T>(s: Seq<(Engine, T)>, i: int)
    requires
        distinct_engines(s),
        0 <= i < s.len(),
    ensures
        engine_map(s).dom().contains(s[i].0@),
        engine_map(s)[s[i].0@] == s[i].1,
    decreases s.len(),
{
    if i < s.len() - 1 {
        assert(distinct_engines(s.drop_last())) by {
            assert(forall|p: int, q: int|
                0 <= p < q < s.drop_last().len() ==> s.drop_last()[p].0@ != s.drop_last()[q].0@);
        }
        lemma_engine_map_index(s.drop_last(), i);
        assert(s.drop_last()[i] == s[i]);
        assert(s.last().0@ != s[i].0@);
    }
}

/// A key-value store of source engine identifiers mapped to [ResolverItem]s.
///
/// If an [Engine] to [ResolverItem] mapping exists for a specific resource,
/// then the corresponding source object for that engine will use the pointer
/// returned to complete the request using the associated endpoint objects.
pub struct Resolver<T> {
    resolvers: Vec<(Engine, T)>,
}

impl<T> View for Resolver<T> {
    type V = Map<Seq<char>, T>;

    closed spec fn view(&self) -> Map<Seq<char>, T> {
        engine_map(self.resolvers@)
    }
}

impl<T: ResolverItem> Resolver<T> {
    /// At most one entry per engine.
    pub closed spec fn wf(&self) -> bool {
        distinct_engines(self.resolvers@)
    }

    pub fn new() -> (r: Resolver<T>)
        ensures
            r@ == Map::<Seq<char>, T>::empty(),
            r.wf(),
    {
        Resolver { resolvers: Vec::new() }
    }

    fn contains_engine(&self, e: &Engine) -> (r: bool)
        ensures
            r == self@.dom().contains(e@),
    {
        let n = self.resolvers.len();
        let mut k: usize = 0;
        while k < n
            invariant
                n == self.resolvers@.len(),
                k <= n,
                forall|i: int| 0 <= i < k ==> self.resolvers@[i].0@ != e@,
            decreases n - k,
        {
            let entry = &self.resolvers[k];
            if entry.0 == *e {
                proof {
                    lemma_engine_map_contains_at(self.resolvers@, k as int);
                }
                return true;
            }
            k += 1;
        }
        proof {
            lemma_engine_map_absent(self.resolvers@, e@);
        }
        false
    }

    /// Register a [ResolverItem] for an [Engine].
    ///
    /// Fails with [ErrorDetail::EngineExistsError], leaving the registry
    /// unchanged, if a record for the engine already exists.
    pub fn add(&mut self, e: Engine, r: T) -> (res: Result<(), ResolverError>)
        requires
            old(self).wf(),
        ensures
            final(self).wf(),
            old(self)@.dom().contains(e@) ==> {
                &&& res is Err
                &&& res->Err_0.detail is EngineExistsError
                &&& final(self)@ == old(self)@
            },
            !old(self)@.dom().contains(e@) ==> {
                &&& res is Ok
                &&& final(self)@ == old(self)@.insert(e@, r)
            },
    {
        if self.contains_engine(&e) {
            return Err(ResolverError::new(ErrorDetail::EngineExistsError));
        }
        proof {
            assert forall|i: int| 0 <= i < self.resolvers@.len() implies self.resolvers@[i].0@
                != e@ by {
                if self.resolvers@[i].0@ == e@ {
                    lemma_engine_map_contains_at(self.resolvers@, i);
                }
            }
            let s = self.resolvers@.push((e, r));
            assert(s.drop_last() =~= self.resolvers@);
            assert(distinct_engines(s));
        }
        self.resolvers.push((e, r));
        Ok(())
    }

    /// Retrieve the pointer of the [ResolverItem] registered for an [Engine].
    ///
    /// Fails with [ErrorDetail::UnknownEngineError] if no record for the
    /// engine exists.
    pub fn pointer_for(&self, e: &Engine) -> (r: Result<String, ResolverError>)
        requires
            self.wf(),
        ensures
            self@.dom().contains(e@) ==> {
                &&& r is Ok
                &&& r->Ok_0@ == self@[e@].pointer_spec()
            },
            !self@.dom().contains(e@) ==> {
                &&& r is Err
                &&& r->Err_0.detail is UnknownEngineError
                &&& r->Err_0.detail->UnknownEngineError_0@ == e@
            },
    {
        let n = self.resolvers.len();
        let mut k: usize = 0;
        while k < n
            invariant
                n == self.resolvers@.len(),
                k <= n,
                self.wf(),
                forall|i: int| 0 <= i < k ==> self.resolvers@[i].0@ != e@,
            decreases n - k,
        {
            let entry = &self.resolvers[k];
            if entry.0 == *e {
                proof {
                    lemma_engine_map_index(self.resolvers@, k as int);
                }
                return Ok(entry.1.pointer());
            }
            k += 1;
        }
        proof {
            lemma_engine_map_absent(self.resolvers@, e@);
        }
        Err(ResolverError::new(ErrorDetail::UnknownEngineError(e.clone())))
    }
}

/// Registry uniqueness: once an engine is registered, the engine is present in
/// the registry's map model, so by the contract of [Resolver::add] a second
/// registration for it fails with [ErrorDetail::EngineExistsError] and leaves
/// the map unchanged; the item looked up for the engine - and hence the
/// pointer that [Resolver::pointer_for] yields - is still the first item.
pub proof fn lemma_registry_uniqueness<T: ResolverItem>(
    m: Map<Seq<char>, T>,
    e: Seq<char>,
    item: T,
)
    requires
        !m.dom().contains(e),
    ensures
        m.insert(e, item).dom().contains(e),
        m.insert(e, item)[e] == item,
        m.insert(e, item)[e].pointer_spec() == item.pointer_spec(),
{
}

} // verus!
