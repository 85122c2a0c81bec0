use vstd::prelude::*;

use crate::endpoint::spec_url_for;
use crate::resolver::{Resolver, ResolverError, ResolverItem};
use crate::source::Source;
use crate::timing::Scheduler;

/// The request graph produced from controller state.
pub mod graph;

use graph::{graph_insert, ControllerGraph};

verus! {

/// The base offset a controller with delay `delay` assigns to its `i`-th
/// source: `0` for every source when the delay is zero, else `i * delay`.
pub open spec fn spec_base_offset(delay: u32, i: int) -> int {
    if delay > 0 {
        i * delay
    } else {
        0
    }
}

/// The offset requested (before collision resolution) for endpoint `j` of a
/// source with base offset `base` and schedule delay `delay`.
pub open spec fn requested_offset(base: u32, delay: u32, j: int) -> int {
    base + delay * j
}

/// The pointers a registry resolves, per engine.
pub open spec fn pointer_map<T: ResolverItem>(m: Map<Seq<char>, T>) -> Map<Seq<char>, Seq<char>> {
    m.map_values(|t: T| t.pointer_spec())
}

/// The number of endpoints over all sources.
pub open spec fn total_endpoints(sources: Seq<Source>) -> nat
    decreases sources.len(),
{
    if sources.len() == 0 {
        0
    } else {
        total_endpoints(sources.drop_last()) + sources.last().endpoints@.len()
    }
}

/// The graph entries contributed by endpoints `[0, j)` of one source, in
/// endpoint order.
pub open spec fn gen_endpoints(
    m: Map<u64, (Seq<char>, Seq<char>)>,
    s: Source,
    base: u32,
    delay: u32,
    pointer: Seq<char>,
    j: int,
) -> Map<u64, (Seq<char>, Seq<char>)>
    decreases j,
{
    if j <= 0 {
        m
    } else {
        graph_insert(
            gen_endpoints(m, s, base, delay, pointer, j - 1),
            requested_offset(base, delay, j - 1) as u64,
            spec_url_for(s.endpoints@[j - 1].url@, pointer),
            s.engine@,
        )
    }
}

/// The graph entries contributed by one source: those of all its endpoints
/// where it has a schedule, none where it has not.
pub open spec fn gen_source(
    m: Map<u64, (Seq<char>, Seq<char>)>,
    s: Source,
    base: u32,
    pointers: Map<Seq<char>, Seq<char>>,
) -> Map<u64, (Seq<char>, Seq<char>)> {
    match s.timing {
        Some(t) => gen_endpoints(
            m,
            s,
            base,
            t.delay,
            pointers[s.engine@],
            s.endpoints@.len() as int,
        ),
        None => m,
    }
}

/// The graph generated from the first `i` sources, in insertion order.
pub open spec fn gen_upto(
    sources: Seq<Source>,
    offsets: Seq<u32>,
    pointers: Map<Seq<char>, Seq<char>>,
    i: int,
) -> Map<u64, (Seq<char>, Seq<char>)>
    decreases i,
{
    if i <= 0 {
        Map::empty()
    } else {
        gen_source(
            gen_upto(sources, offsets, pointers, i - 1),
            sources[i - 1],
            offsets[i - 1],
            pointers,
        )
    }
}

/// The full graph generated from a controller's sources and base offsets
/// against resolved pointers.
pub open spec fn gen_graph(
    sources: Seq<Source>,
    offsets: Seq<u32>,
    pointers: Map<Seq<char>, Seq<char>>,
) -> Map<u64, (Seq<char>, Seq<char>)> {
    gen_upto(sources, offsets, pointers, sources.len() as int)
}

/// Every source that takes part in generation has a registered engine.
pub open spec fn all_resolvable(sources: Seq<Source>, engines: Set<Seq<char>>) -> bool {
    forall|i: int|
        0 <= i < sources.len() && sources[i].timing is Some ==> engines.contains(
            #[trigger] sources[i].engine@,
        )
}

/// The index of the first source at or after `j` that takes part in
/// generation but whose engine is not registered; the sequence length where
/// there is none.
pub open spec fn first_unresolvable(sources: Seq<Source>, engines: Set<Seq<char>>, j: int) -> int
    decreases sources.len() - j,
{
    if j < 0 || j >= sources.len() {
        sources.len() as int
    } else if sources[j].timing is Some && !engines.contains(sources[j].engine@) {
        j
    } else {
        first_unresolvable(sources, engines, j + 1)
    }
}

proof fn lemma_first_unresolvable(sources: Seq<Source>, engines: Set<Seq<char>>, j: int, i: int)
    requires
        0 <= j <= i < sources.len(),
        forall|t: int|
            j <= t < i && sources[t].timing is Some ==> engines.contains(
                #[trigger] sources[t].engine@,
            ),
        sources[i].timing is Some,
        !engines.contains(sources[i].engine@),
    ensures
        first_unresolvable(sources, engines, j) == i,
    decreases i - j,
{
    if j < i {
        lemma_first_unresolvable(sources, engines, j + 1, i);
    }
}

proof fn lemma_total_endpoints_take(sources: Seq<Source>, i: int)
    requires
        0 <= i < sources.len(),
    ensures
        total_endpoints(sources.take(i + 1)) == total_endpoints(sources.take(i))
            + sources[i].endpoints@.len(),
{
    assert(sources.take(i + 1).drop_last() =~= sources.take(i));
    assert(sources.take(i + 1).last() == sources[i]);
}

proof fn lemma_total_endpoints_mono(sources: Seq<Source>, i: int)
    requires
        0 <= i <= sources.len(),
    ensures
        total_endpoints(sources.take(i)) <= total_endpoints(sources),
    decreases sources.len() - i,
{
    if i == sources.len() {
        assert(sources.take(i) =~= sources);
    } else {
        lemma_total_endpoints_take(sources, i);
        lemma_total_endpoints_mono(sources, i + 1);
    }
}

/// Controller defines the order and scheduling of how a collection of
/// sources are queried for content.
///
/// If a delay is defined in the controller's schedule, the same delay will
/// apply between every added source.  Each [Source] in turn defines its own
/// delay applied between every endpoint it contains.
///
/// Once a controller has been populated, it can be used to generate
/// [ControllerGraph] instances, which in turn can be used with a query
/// engine to control the execution of a single query.
pub struct Controller {
    pub sources: Vec<Source>,
    pub timing: Scheduler,
    pub offsets: Vec<u32>,
}

impl Controller {
    /// Each source's base offset was assigned from its position and the
    /// controller delay when the source was added, and is never recomputed.
    pub open spec fn wf(&self) -> bool {
        &&& self.offsets@.len() == self.sources@.len()
        &&& forall|i: int|
            0 <= i < self.offsets@.len() ==> self.offsets@[i] == spec_base_offset(
                self.timing.delay,
                i,
            )
    }

    pub fn new(scheduler: Scheduler) -> (r: Controller)
        ensures
            r.wf(),
            r.sources@ == Seq::<Source>::empty(),
            r.offsets@ == Seq::<u32>::empty(),
            r.timing == scheduler,
    {
        Controller { sources: vec![], offsets: vec![], timing: scheduler }
    }

    /// Add a source to the request collection.
    ///
    /// Sources will be requested in the order they were added.  The new
    /// source's base offset is `0` for the first source or under a zero
    /// controller delay, and one controller delay after the previous base
    /// offset otherwise.
    pub fn add(&mut self, source: Source)
        requires
            old(self).wf(),
            old(self).timing.delay > 0 ==> old(self).sources@.len() * old(self).timing.delay
                <= u32::MAX,
        ensures
            final(self).wf(),
            final(self).timing == old(self).timing,
            final(self).sources@ == old(self).sources@.push(source),
            final(self).offsets@ == old(self).offsets@.push(
                spec_base_offset(old(self).timing.delay, old(self).sources@.len() as int) as u32,
            ),
    {
        let n = self.offsets.len();
        if self.timing.delay > 0 {
            if n == 0 {
                self.offsets.push(0);
            } else {
                proof {
                    let d = self.timing.delay as int;
                    let k = n as int;
                    assert((k - 1) * d + d == k * d) by (nonlinear_arith);
                    assert(k * d <= u32::MAX);
                }
                let u: u32 = self.offsets[n - 1] + self.timing.delay;
                self.offsets.push(u);
            }
        } else {
            self.offsets.push(0);
        }
        self.sources.push(source);
    }

    /// Generate a [ControllerGraph] from the current state of the
    /// [Controller].
    ///
    /// Walks sources in insertion order; every source with a schedule has
    /// its engine resolved to a pointer and contributes one entry per
    /// endpoint, offset by its base offset plus the schedule delay times the
    /// endpoint position; sources without a schedule are skipped.  Fails
    /// with the first unresolvable engine instead of producing a partial
    /// graph.
    pub fn generate<T: ResolverItem>(&self, resolver: &Resolver<T>) -> (r: Result<
        ControllerGraph,
        ResolverError,
    >)
        requires
            self.wf(),
            resolver.wf(),
            total_endpoints(self.sources@) <= u32::MAX,
        ensures
            r is Ok <==> all_resolvable(self.sources@, resolver@.dom()),
            r is Ok ==> r->Ok_0@ == gen_graph(
                self.sources@,
                self.offsets@,
                pointer_map(resolver@),
            ),
            r is Ok ==> r->Ok_0.wf(),
            r is Ok ==> r->Ok_0.snapshot() == Seq::<u64>::empty(),
            r is Err ==> ({
                let fi = first_unresolvable(self.sources@, resolver@.dom(), 0);
                &&& r->Err_0.detail is UnknownEngineError
                &&& 0 <= fi < self.sources@.len()
                &&& r->Err_0.detail->UnknownEngineError_0@ == self.sources@[fi].engine@
            }),
    {
        let ghost pointers = pointer_map(resolver@);
        let mut g = ControllerGraph::new();
        let n = self.sources.len();
        let mut i: usize = 0;
        while i < n
            invariant
                n == self.sources@.len(),
                i <= n,
                self.wf(),
                resolver.wf(),
                total_endpoints(self.sources@) <= u32::MAX,
                pointers == pointer_map(resolver@),
                g.wf(),
                g@.dom().finite(),
                g.snapshot() == Seq::<u64>::empty(),
                g@.dom().len() <= total_endpoints(self.sources@.take(i as int)),
                g@ == gen_upto(self.sources@, self.offsets@, pointers, i as int),
                forall|t: int|
                    0 <= t < i && self.sources@[t].timing is Some ==> resolver@.dom().contains(
                        #[trigger] self.sources@[t].engine@,
                    ),
            decreases n - i,
        {
            let ghost src = self.sources@[i as int];
            let ghost base_m = g@;
            let s = &self.sources[i];
            match &s.timing {
                Some(x) => {
                    match resolver.pointer_for(&s.engine) {
                        Ok(pointer) => {
                            proof {
                                lemma_total_endpoints_take(self.sources@, i as int);
                                lemma_total_endpoints_mono(self.sources@, i as int + 1);
                            }
                            let base = self.offsets[i];
                            let m = s.endpoints.len();
                            let mut j: usize = 0;
                            while j < m
                                invariant
                                    n == self.sources@.len(),
                                    i < n,
                                    src == self.sources@[i as int],
                                    *s == src,
                                    m == src.endpoints@.len(),
                                    j <= m,
                                    self.wf(),
                                    base == self.offsets@[i as int],
                                    src.timing is Some,
                                    *x == src.timing->0,
                                    resolver@.dom().contains(src.engine@),
                                    pointer@ == pointers[src.engine@],
                                    total_endpoints(self.sources@) <= u32::MAX,
                                    total_endpoints(self.sources@.take(i as int)) + m
                                        <= total_endpoints(self.sources@),
                                    g.wf(),
                                    g@.dom().finite(),
                                    g.snapshot() == Seq::<u64>::empty(),
                                    g@.dom().len() <= total_endpoints(
                                        self.sources@.take(i as int),
                                    ) + j,
                                    g@ == gen_endpoints(
                                        base_m,
                                        src,
                                        base,
                                        x.delay,
                                        pointer@,
                                        j as int,
                                    ),
                                decreases m - j,
                            {
                                proof {
                                    let b = base as int;
                                    let d = x.delay as int;
                                    let jj = j as int;
                                    let cnt = g@.dom().len() as int;
                                    assert(d * jj <= 0xffff_ffff * (0xffff_ffff - 1))
                                        by (nonlinear_arith)
                                        requires
                                            0 <= d <= 0xffff_ffff,
                                            0 <= jj <= 0xffff_ffff - 1,
                                    ;
                                    assert(b + d * jj + cnt <= u64::MAX);
                                }
                                let off: u64 = (base as u64) + (x.delay as u64) * (j as u64);
                                let e = &s.endpoints[j];
                                let url = e.url_for(pointer.as_str());
                                let ghost gpre = g@;
                                g.add(off, &s.engine, url);
                                proof {
                                    vstd::set::axiom_set_insert_len(
                                        gpre.dom(),
                                        graph::next_free(gpre.dom(), off),
                                    );
                                    assert(off == requested_offset(base, x.delay, j as int) as u64);
                                }
                                j += 1;
                            }
                            proof {
                                assert(g@ == gen_source(base_m, src, base, pointers));
                                assert(self.sources@.take(i as int + 1).drop_last()
                                    =~= self.sources@.take(i as int));
                            }
                        },
                        Err(e) => {
                            proof {
                                lemma_first_unresolvable(
                                    self.sources@,
                                    resolver@.dom(),
                                    0,
                                    i as int,
                                );
                            }
                            return Err(e);
                        },
                    }
                },
                None => {
                    proof {
                        lemma_total_endpoints_take(self.sources@, i as int);
                    }
                },
            }
            i += 1;
        }
        proof {
            assert(self.sources@.take(n as int) =~= self.sources@);
        }
        Ok(g)
    }
}

/// Offset sequence property: under a positive controller delay `d`, the
/// base offsets of a well-formed controller form the arithmetic sequence
/// `0, d, 2d, ...`; under a zero delay every base offset is `0`.
pub proof fn lemma_offset_sequence(c: Controller)
    requires
        c.wf(),
    ensures
        c.timing.delay > 0 ==> forall|i: int|
            0 <= i < c.offsets@.len() ==> c.offsets@[i] == i * c.timing.delay,
        c.timing.delay == 0 ==> forall|i: int| 0 <= i < c.offsets@.len() ==> c.offsets@[i] == 0,
{
}

/// Intra-source spacing property: the requested (pre-collision) offsets of
/// a source's endpoints form the arithmetic sequence `base, base + s,
/// base + 2s, ...`: endpoint `j` is requested at `base + j * s`, so the
/// first endpoint is requested at the source's base offset and each
/// following endpoint one schedule delay later.
pub proof fn lemma_intra_source_spacing(base: u32, s: u32, j: int)
    requires
        0 <= j,
    ensures
        requested_offset(base, s, 0) == base,
        requested_offset(base, s, j) == base + j * s,
        requested_offset(base, s, j + 1) == requested_offset(base, s, j) + s,
{
    assert(s * 0 == 0) by (nonlinear_arith);
    assert(s * j == j * s) by (nonlinear_arith);
    assert(s * (j + 1) == s * j + s) by (nonlinear_arith);
}

/// Timing-less source property: a source without a schedule contributes
/// zero entries to the generated graph, regardless of its endpoint count.
pub proof fn lemma_timing_less_source(
    m: Map<u64, (Seq<char>, Seq<char>)>,
    s: Source,
    base: u32,
    pointers: Map<Seq<char>, Seq<char>>,
)
    requires
        s.timing is None,
    ensures
        gen_source(m, s, base, pointers) == m,
{
}

} // verus!
