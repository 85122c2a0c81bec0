use vstd::prelude::*;

use crate::source::Engine;

verus! {

/// The entries of an association list as a map from offset to the pair of
/// resolved URL and engine identifier.  A later entry for the same offset
/// wins, though a well-formed graph never holds two entries for one offset.
pub open spec fn offset_map(s: Seq<(u64, String, Engine)>) -> Map<u64, (Seq<char>, Seq<char>)>
    decreases s.len(),
{
    if s.len() == 0 {
        Map::empty()
    } else {
        offset_map(s.drop_last()).insert(s.last().0, (s.last().1@, s.last().2@))
    }
}

/// No two entries share an offset.
pub open spec fn distinct_offsets(s: Seq<(u64, String, Engine)>) -> bool {
    forall|i: int, j: int| 0 <= i < j < s.len() ==> s[i].0 != s[j].0
}

/// The smallest offset at or above `o` that is not a key of `dom`,
/// saturating at the largest offset.
pub open spec fn next_free(dom: Set<u64>, o: u64) -> u64
    decreases u64::MAX - o,
{
    if !dom.contains(o) || o == u64::MAX {
        o
    } else {
        next_free(dom, (o + 1) as u64)
    }
}

/// One insertion into the graph model: the entry lands on the smallest
/// unused offset at or above the requested one.
pub open spec fn graph_insert(
    m: Map<u64, (Seq<char>, Seq<char>)>,
    o: u64,
    url: Seq<char>,
    engine: Seq<char>,
) -> Map<u64, (Seq<char>, Seq<char>)> {
    m.insert(next_free(m.dom(), o), (url, engine))
}

/// Offsets in strictly ascending order.
pub open spec fn strictly_sorted(s: Seq<u64>) -> bool {
    forall|i: int, j: int| 0 <= i < j < s.len() ==> s[i] < s[j]
}

proof fn lemma_offset_map_contains_at(s: Seq<(u64, String, Engine)>, i: int)
    requires
        0 <= i < s.len(),
    ensures
        offset_map(s).dom().contains(s[i].0),
    decreases s.len(),
{
    if i < s.len() - 1 {
        lemma_offset_map_contains_at(s.drop_last(), i);
        assert(s.drop_last()[i] == s[i]);
    }
}

proof fn lemma_offset_map_absent(s: Seq<(u64, String, Engine)>, k: u64)
    requires
        forall|i: int| 0 <= i < s.len() ==> s[i].0 != k,
    ensures
        !offset_map(s).dom().contains(k),
    decreases s.len(),
{
    if s.len() > 0 {
        assert(forall|i: int| 0 <= i < s.drop_last().len() ==> s.drop_last()[i].0 != k);
        lemma_offset_map_absent(s.drop_last(), k);
        assert(s[s.len() - 1].0 != k);
    }
}

proof fn lemma_offset_map_index(s: Seq<(u64, String, Engine)>, i: int)
    requires
        distinct_offsets(s),
        0 <= i < s.len(),
    ensures
        offset_map(s).dom().contains(s[i].0),
        offset_map(s)[s[i].0] == (s[i].1@, s[i].2@),
    decreases s.len(),
{
    if i < s.len() - 1 {
        assert(distinct_offsets(s.drop_last())) by {
            assert(forall|p: int, q: int|
                0 <= p < q < s.drop_last().len() ==> s.drop_last()[p].0 != s.drop_last()[q].0);
        }
        lemma_offset_map_index(s.drop_last(), i);
        assert(s.drop_last()[i] == s[i]);
        assert(s.last().0 != s[i].0);
    }
}

proof fn lemma_offset_map_finite(s: Seq<(u64, String, Engine)>)
    ensures
        offset_map(s).dom().finite(),
    decreases s.len(),
{
    if s.len() > 0 {
        lemma_offset_map_finite(s.drop_last());
    }
}

proof fn lemma_offset_map_len(s: Seq<(u64, String, Engine)>)
    requires
        distinct_offsets(s),
    ensures
        offset_map(s).dom().finite(),
        offset_map(s).dom().len() == s.len(),
    decreases s.len(),
{
    lemma_offset_map_finite(s);
    if s.len() > 0 {
        let prefix = s.drop_last();
        assert(distinct_offsets(prefix)) by {
            assert(forall|p: int, q: int|
                0 <= p < q < prefix.len() ==> prefix[p].0 != prefix[q].0);
        }
        lemma_offset_map_len(prefix);
        assert(forall|i: int| 0 <= i < prefix.len() ==> prefix[i].0 != s.last().0);
        lemma_offset_map_absent(prefix, s.last().0);
        vstd::set::axiom_set_insert_len(offset_map(prefix).dom(), s.last().0);
    }
}

proof fn lemma_offset_map_push(s: Seq<(u64, String, Engine)>, e: (u64, String, Engine))
    ensures
        offset_map(s.push(e)) == offset_map(s).insert(e.0, (e.1@, e.2@)),
{
    assert(s.push(e).drop_last() =~= s);
    assert(s.push(e).last() == e);
}

proof fn lemma_next_free_agree(d1: Set<u64>, d2: Set<u64>, o: u64)
    requires
        forall|k: u64| k >= o ==> (d1.contains(k) <==> d2.contains(k)),
    ensures
        next_free(d1, o) == next_free(d2, o),
    decreases u64::MAX - o,
{
    if d1.contains(o) && o != u64::MAX {
        lemma_next_free_agree(d1, d2, (o + 1) as u64);
    }
}

/// Where fewer keys are taken than offsets remain, probing from `o` finds a
/// free offset within `dom.len()` steps, and everything below it is taken.
proof fn lemma_next_free(dom: Set<u64>, o: u64)
    requires
        dom.finite(),
        o + dom.len() <= u64::MAX,
    ensures
        next_free(dom, o) >= o,
        next_free(dom, o) <= o + dom.len(),
        !dom.contains(next_free(dom, o)),
        forall|k: u64| o <= k < next_free(dom, o) ==> dom.contains(k),
    decreases dom.len(),
{
    if dom.contains(o) {
        assert(dom.len() > 0) by {
            if dom.len() == 0 {
                dom.lemma_len0_is_empty();
            }
        }
        let dom2 = dom.remove(o);
        vstd::set::axiom_set_remove_len(dom, o);
        lemma_next_free(dom2, (o + 1) as u64);
        lemma_next_free_agree(dom, dom2, (o + 1) as u64);
    }
}

/// An entry that requests a free offset keeps exactly that offset; probing
/// moves only the entries whose requested offset is already taken.
pub proof fn lemma_insert_free_offset(
    m: Map<u64, (Seq<char>, Seq<char>)>,
    o: u64,
    url: Seq<char>,
    engine: Seq<char>,
)
    requires
        !m.dom().contains(o),
    ensures
        graph_insert(m, o, url, engine) == m.insert(o, (url, engine)),
{
}

/// Insert `x` into a strictly ascending vector, keeping it strictly
/// ascending.
fn insert_sorted(out: &mut Vec<u64>, x: u64)
    requires
        strictly_sorted(old(out)@),
        !old(out)@.contains(x),
    ensures
        strictly_sorted(final(out)@),
        forall|k: u64| #[trigger] final(out)@.contains(k) <==> (old(out)@.contains(k) || k == x),
        final(out)@.len() == old(out)@.len() + 1,
{
    let n = out.len();
    let mut idx: usize = 0;
    while idx < n && out[idx] < x
        invariant
            n == out@.len(),
            idx <= n,
            forall|i: int| 0 <= i < idx ==> out@[i] < x,
        decreases n - idx,
    {
        idx += 1;
    }
    proof {
        if idx < out@.len() {
            assert(out@[idx as int] != x) by {
                if out@[idx as int] == x {
                    assert(out@.contains(x)) by {
                        assert(out@[idx as int] == x);
                    }
                }
            }
            assert(out@[idx as int] > x);
        }
    }
    let ghost before = out@;
    out.insert(idx, x);
    proof {
        before.insert_ensures(idx as int, x);
        let after = out@;
        assert forall|i: int, j: int| 0 <= i < j < after.len() implies after[i] < after[j] by {
            if j < idx {
                assert(after[i] == before[i] && after[j] == before[j]);
            } else if i < idx && j == idx {
                assert(after[i] == before[i] && after[j] == x);
            } else if i < idx && j > idx {
                assert(after[i] == before[i] && after[j] == before[j - 1]);
                assert(before[i] < x);
                if j - 1 == idx {
                    assert(before[j - 1] > x);
                } else {
                    assert(before[idx as int] <= before[j - 1]) by {
                        assert(before[idx as int] > x);
                        if idx < j - 1 {
                            assert(before[idx as int] < before[j - 1]);
                        }
                    }
                }
            } else if i == idx {
                assert(after[i] == x && after[j] == before[j - 1]);
                assert(before[j - 1] > x);
            } else {
                assert(after[i] == before[i - 1] && after[j] == before[j - 1]);
            }
        }
        assert forall|k: u64| #[trigger] after.contains(k) implies (before.contains(k) || k
            == x) by {
            let w = choose|w: int| 0 <= w < after.len() && after[w] == k;
            if w < idx {
                assert(before[w] == k);
            } else if w > idx {
                assert(before[w - 1] == k);
            }
        }
        assert forall|k: u64| before.contains(k) || k == x implies #[trigger] after.contains(
            k,
        ) by {
            if before.contains(k) {
                let w = choose|w: int| 0 <= w < before.len() && before[w] == k;
                if w < idx {
                    assert(after[w] == k);
                } else {
                    assert(after[w + 1] == k);
                }
            } else {
                assert(after[idx as int] == x);
            }
        }
    }
}

/// Represents the sequence and timings of a single resource request as
/// described by the controller state at the time of request.
///
/// The graph maps each millisecond offset to at most one resolved request
/// URL and its originating engine.  When an insertion requests an offset
/// that is already taken, the entry is pushed to the smallest unused offset
/// above it, so the first entry at any offset keeps that exact value.
pub struct ControllerGraph {
    v: Vec<(u64, String, Engine)>,
    it: Vec<u64>,
}

impl View for ControllerGraph {
    type V = Map<u64, (Seq<char>, Seq<char>)>;

    closed spec fn view(&self) -> Map<u64, (Seq<char>, Seq<char>)> {
        offset_map(self.v@)
    }
}

impl ControllerGraph {
    /// At most one entry per offset.
    pub closed spec fn wf(&self) -> bool {
        distinct_offsets(self.v@)
    }

    /// The sorted-offset snapshot that [ControllerGraph::keys] computed
    /// last.
    pub closed spec fn snapshot(&self) -> Seq<u64> {
        self.it@
    }

    /// The snapshot holds exactly the graph's offsets, in strictly ascending
    /// order.
    pub open spec fn snapshot_valid(&self) -> bool {
        &&& strictly_sorted(self.snapshot())
        &&& forall|k: u64| #[trigger] self.snapshot().contains(k) <==> self@.dom().contains(k)
    }

    pub fn new() -> (r: ControllerGraph)
        ensures
            r@ == Map::<u64, (Seq<char>, Seq<char>)>::empty(),
            r.wf(),
            r.snapshot() == Seq::<u64>::empty(),
    {
        ControllerGraph { v: Vec::new(), it: Vec::new() }
    }

    /// Number of entries in the graph.
    pub fn len(&self) -> (r: usize)
        requires
            self.wf(),
        ensures
            r == self@.dom().len(),
    {
        proof {
            lemma_offset_map_len(self.v@);
        }
        self.v.len()
    }

    fn contains_offset(&self, o: u64) -> (r: bool)
        ensures
            r == self@.dom().contains(o),
    {
        let n = self.v.len();
        let mut j: usize = 0;
        while j < n
            invariant
                n == self.v@.len(),
                j <= n,
                forall|i: int| 0 <= i < j ==> self.v@[i].0 != o,
            decreases n - j,
        {
            if self.v[j].0 == o {
                proof {
                    lemma_offset_map_contains_at(self.v@, j as int);
                }
                return true;
            }
            j += 1;
        }
        proof {
            lemma_offset_map_absent(self.v@, o);
        }
        false
    }

    /// The smallest unused offset at or above `offset_default`: the
    /// requested offset itself where it is free, else the end of the run of
    /// taken offsets that starts there.
    pub fn find_next_offset(&self, offset_default: u64) -> (r: u64)
        requires
            self.wf(),
            offset_default + self@.dom().len() <= u64::MAX,
        ensures
            r == next_free(self@.dom(), offset_default),
            r >= offset_default,
            !self@.dom().contains(r),
            forall|k: u64| offset_default <= k < r ==> self@.dom().contains(k),
    {
        proof {
            lemma_offset_map_len(self.v@);
            lemma_next_free(self@.dom(), offset_default);
        }
        let ghost target = next_free(self@.dom(), offset_default);
        let mut offset: u64 = offset_default;
        loop
            invariant
                self.wf(),
                offset_default <= offset <= target,
                target == next_free(self@.dom(), offset_default),
                target <= u64::MAX,
                !self@.dom().contains(target),
                forall|k: u64| offset_default <= k < target ==> self@.dom().contains(k),
            decreases target - offset,
        {
            if !self.contains_offset(offset) {
                assert(offset == target);
                return offset;
            }
            assert(offset < target);
            offset = offset + 1;
        }
    }

    /// Add a new offset/url pair to the graph.
    ///
    /// The entry is stored at the smallest unused offset at or above `d`, so
    /// no two entries ever share an offset, and an entry that requested a
    /// free offset keeps exactly that offset.
    pub fn add(&mut self, d: u64, engine: &Engine, pointer_url: String)
        requires
            old(self).wf(),
            d + old(self)@.dom().len() <= u64::MAX,
        ensures
            final(self).wf(),
            final(self)@ == graph_insert(old(self)@, d, pointer_url@, engine@),
            final(self)@.dom() == old(self)@.dom().insert(next_free(old(self)@.dom(), d)),
            !old(self)@.dom().contains(next_free(old(self)@.dom(), d)),
            final(self).snapshot() == old(self).snapshot(),
    {
        let offset = self.find_next_offset(d);
        proof {
            assert forall|i: int| 0 <= i < self.v@.len() implies self.v@[i].0 != offset by {
                if self.v@[i].0 == offset {
                    lemma_offset_map_contains_at(self.v@, i);
                }
            }
            let s = self.v@.push((offset, pointer_url, *engine));
            assert(s.drop_last() =~= self.v@);
            assert(distinct_offsets(s));
            lemma_offset_map_push(self.v@, (offset, pointer_url, *engine));
        }
        self.v.push((offset, pointer_url, engine.clone()));
    }

    fn fill_it(&mut self)
        requires
            old(self).wf(),
        ensures
            final(self)@ == old(self)@,
            final(self).wf(),
            final(self).snapshot_valid(),
            final(self).snapshot().len() == final(self)@.dom().len(),
    {
        proof {
            lemma_offset_map_len(self.v@);
        }
        let n = self.v.len();
        let mut out: Vec<u64> = Vec::new();
        let mut i: usize = 0;
        while i < n
            invariant
                n == self.v@.len(),
                i <= n,
                self.wf(),
                strictly_sorted(out@),
                out@.len() == i,
                forall|k: u64| #[trigger] out@.contains(k) <==> offset_map(
                    self.v@.take(i as int),
                ).dom().contains(k),
            decreases n - i,
        {
            let ghost prefix = self.v@.take(i as int);
            let x = self.v[i].0;
            proof {
                assert(forall|t: int| 0 <= t < prefix.len() ==> prefix[t] == self.v@[t]);
                assert(forall|t: int| 0 <= t < i ==> self.v@[t].0 != x);
                assert(forall|t: int| 0 <= t < prefix.len() ==> prefix[t].0 != x);
                lemma_offset_map_absent(prefix, x);
                assert(self.v@.take(i + 1).drop_last() =~= prefix);
                assert(self.v@.take(i + 1).last() == self.v@[i as int]);
            }
            insert_sorted(&mut out, x);
            i += 1;
        }
        proof {
            assert(self.v@.take(n as int) =~= self.v@);
        }
        self.it = out;
    }

    /// Compute the ascending snapshot of the graph's offsets, store it for
    /// [ControllerGraph::get], and return it.
    pub fn keys(&mut self) -> (r: Vec<u64>)
        requires
            old(self).wf(),
        ensures
            final(self)@ == old(self)@,
            final(self).wf(),
            final(self).snapshot_valid(),
            r@ == final(self).snapshot(),
            r@.len() == old(self)@.dom().len(),
    {
        self.fill_it();
        let r = self.it.clone();
        proof {
            assert(r@ =~= self.it@);
        }
        r
    }

    /// The i-th entry of the last-computed snapshot, in ascending offset
    /// order.  Only valid after [ControllerGraph::keys] has populated the
    /// snapshot.
    pub fn get(&self, i: usize) -> (r: (u64, String, Engine))
        requires
            self.wf(),
            self.snapshot_valid(),
            i < self.snapshot().len(),
        ensures
            r.0 == self.snapshot()[i as int],
            self@.dom().contains(r.0),
            (r.1@, r.2@) == self@[r.0],
    {
        let k = self.it[i];
        proof {
            assert(self.snapshot().contains(k)) by {
                assert(self.snapshot()[i as int] == k);
            }
        }
        let n = self.v.len();
        let mut j: usize = 0;
        while j < n
            invariant
                n == self.v@.len(),
                j <= n,
                self.wf(),
                i < self.snapshot().len(),
                k == self.snapshot()[i as int],
                self@.dom().contains(k),
                forall|t: int| 0 <= t < j ==> self.v@[t].0 != k,
            decreases n - j,
        {
            let entry = &self.v[j];
            if entry.0 == k {
                proof {
                    lemma_offset_map_index(self.v@, j as int);
                }
                return (k, entry.1.clone(), entry.2.clone());
            }
            j += 1;
        }
        proof {
            lemma_offset_map_absent(self.v@, k);
        }
        vstd::pervasive::unreached()
    }
}

} // verus!
