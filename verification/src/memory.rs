//! The memory store: durable, append-only storage of generated responses,
//! retrievable by tag filter and embedding similarity.
//!
//! Embedding entries are fixed-point values held in `i32`; every embedding in
//! one store has the same dimension.  Similarity is measured by squared
//! Euclidean distance (smaller is more similar), a symmetric metric that is
//! zero exactly between equal vectors; ties are broken by insertion order, so
//! retrieval is reproducible for identical inputs.

use vstd::prelude::*;
use crate::tags::{TagPair, tags_match, tags_match_exec};

verus! {

/// One persisted memory: a generated response, its embedding, the tags it
/// was stored under, and the timestamp of the request that produced it.
pub struct MemoryRecord {
    pub text: String,
    pub embedding: Vec<i32>,
    pub tags: Vec<TagPair>,
    pub timestamp: u64,
}

/// The record's tags are a superset of `filter`.
pub open spec fn rec_matches(r: MemoryRecord, filter: Seq<TagPair>) -> bool {
    tags_match(filter, r.tags@)
}

pub open spec fn sq(d: int) -> int {
    d * d
}

/// Squared Euclidean distance over the first `n` entries.
pub open spec fn dist2_upto(a: Seq<i32>, b: Seq<i32>, n: int) -> int
    decreases n,
{
    if n <= 0 {
        0
    } else {
        dist2_upto(a, b, n - 1) + sq(a[n - 1] - b[n - 1])
    }
}

/// Squared Euclidean distance between two embeddings of equal dimension.
pub open spec fn dist2(a: Seq<i32>, b: Seq<i32>) -> int {
    dist2_upto(a, b, a.len() as int)
}

/// A squared distance is never negative.
pub proof fn lemma_dist2_upto_nonneg(a: Seq<i32>, b: Seq<i32>, n: int)
    ensures
        dist2_upto(a, b, n) >= 0,
    decreases n,
{
    if n > 0 {
        lemma_dist2_upto_nonneg(a, b, n - 1);
        assert(sq(a[n - 1] - b[n - 1]) >= 0) by (nonlinear_arith);
    }
}

/// A vector is at distance zero from itself: similarity to self is maximal.
pub proof fn lemma_dist2_self_zero(a: Seq<i32>, n: int)
    ensures
        dist2_upto(a, a, n) == 0,
    decreases n,
{
    if n > 0 {
        lemma_dist2_self_zero(a, n - 1);
    }
}

/// The exec computation of `dist2`.  Each term is below `2^64`, so the
/// `u128` accumulator cannot overflow.
pub fn sq_dist(a: &Vec<i32>, b: &Vec<i32>) -> (d: u128)
    requires
        a@.len() == b@.len(),
    ensures
        d as int == dist2(a@, b@),
{
    let n = a.len();
    let mut acc: u128 = 0;
    let mut i: usize = 0;
    while i < n
        invariant
            i <= n,
            n == a@.len(),
            n == b@.len(),
            acc as int == dist2_upto(a@, b@, i as int),
            acc <= (i as int) * 0xFFFF_FFFE_0000_0001,
        decreases n - i,
    {
        let ai: i64 = a[i] as i64;
        let bi: i64 = b[i] as i64;
        let diff: i64 = ai - bi;
        proof {
            assert((diff as int) * (diff as int) <= 0xFFFF_FFFE_0000_0001 && (diff as int) * (
            diff as int) >= 0) by (nonlinear_arith)
                requires
                    -0xFFFF_FFFFi64 <= diff <= 0xFFFF_FFFFi64,
            ;
        }
        let term: i128 = (diff as i128) * (diff as i128);
        acc = acc + (term as u128);
        i = i + 1;
    }
    acc
}

/// Strict lexicographic order on (distance, insertion index): the ranking
/// used by retrieval.  Smaller distance first; on equal distance the older
/// record first.
pub open spec fn key_lt(d1: int, i1: int, d2: int, i2: int) -> bool {
    d1 < d2 || (d1 == d2 && i1 < i2)
}

/// How many of the first `n` records match `filter`.
pub open spec fn match_count_upto(recs: Seq<MemoryRecord>, filter: Seq<TagPair>, n: int) -> int
    decreases n,
{
    if n <= 0 {
        0
    } else {
        match_count_upto(recs, filter, n - 1) + if rec_matches(recs[n - 1], filter) {
            1int
        } else {
            0int
        }
    }
}

pub open spec fn spec_min(a: int, b: int) -> int {
    if a < b {
        a
    } else {
        b
    }
}

/// `w` lists, in rank order, the indices of the records whose texts were
/// returned: each is a matching record, the ranking is strictly increasing
/// in (distance, index), and every matching record left out ranks strictly
/// after everything returned.
pub open spec fn retrieval_witness(
    recs: Seq<MemoryRecord>,
    q: Seq<i32>,
    filter: Seq<TagPair>,
    k: int,
    out: Seq<String>,
    w: Seq<int>,
) -> bool {
    &&& w.len() == out.len()
    &&& out.len() == spec_min(k, match_count_upto(recs, filter, recs.len() as int))
    &&& forall|j: int|
        0 <= j < w.len() ==> 0 <= #[trigger] w[j] < recs.len() && rec_matches(recs[w[j]], filter)
            && out[j]@ == recs[w[j]].text@
    &&& forall|j1: int, j2: int|
        0 <= j1 < j2 < w.len() ==> key_lt(
            dist2(recs[#[trigger] w[j1]].embedding@, q),
            w[j1],
            dist2(recs[#[trigger] w[j2]].embedding@, q),
            w[j2],
        )
    &&& forall|i: int, j: int|
        0 <= i < recs.len() && rec_matches(#[trigger] recs[i], filter) && !w.contains(i) && 0 <= j
            < w.len() ==> key_lt(
            dist2(recs[#[trigger] w[j]].embedding@, q),
            w[j],
            dist2(recs[i].embedding@, q),
            i,
        )
}

/// What `retrieve_similar` returns: some witness index sequence ranks the
/// returned texts.  The strictness of the ranking makes the witness, and so
/// the returned texts, unique.
pub open spec fn retrieval_ok(
    recs: Seq<MemoryRecord>,
    q: Seq<i32>,
    filter: Seq<TagPair>,
    k: int,
    out: Seq<String>,
) -> bool {
    exists|w: Seq<int>| retrieval_witness(recs, q, filter, k, out, w)
}

/// One candidate row during retrieval: (distance, record index).
spec fn cand_ok(
    recs: Seq<MemoryRecord>,
    q: Seq<i32>,
    filter: Seq<TagPair>,
    c: (u128, usize),
) -> bool {
    &&& (c.1 as int) < recs.len()
    &&& rec_matches(recs[c.1 as int], filter)
    &&& c.0 as int == dist2(recs[c.1 as int].embedding@, q)
}

spec fn cands_has_idx(cs: Seq<(u128, usize)>, ii: int) -> bool {
    exists|j: int| 0 <= j < cs.len() && (#[trigger] cs[j]).1 == ii
}

/// A match count is never negative.
pub proof fn lemma_match_count_nonneg(recs: Seq<MemoryRecord>, filter: Seq<TagPair>, n: int)
    ensures
        match_count_upto(recs, filter, n) >= 0,
    decreases n,
{
    if n > 0 {
        lemma_match_count_nonneg(recs, filter, n - 1);
    }
}

/// Retrieval from an empty store returns no texts, whatever the query,
/// filter and limit.
pub proof fn lemma_empty_store_empty_result(
    q: Seq<i32>,
    filter: Seq<TagPair>,
    k: int,
    out: Seq<String>,
)
    requires
        k >= 0,
        retrieval_ok(Seq::<MemoryRecord>::empty(), q, filter, k, out),
    ensures
        out.len() == 0,
{
    let recs = Seq::<MemoryRecord>::empty();
    let w = choose|w: Seq<int>| retrieval_witness(recs, q, filter, k, out, w);
    assert(match_count_upto(recs, filter, 0) == 0);
}

/// `s` is the text of some record in `recs` whose tags are a superset of
/// the filter.
pub open spec fn text_of_matching(recs: Seq<MemoryRecord>, filter: Seq<TagPair>, s: String) -> bool {
    exists|i: int| 0 <= i < recs.len() && rec_matches(#[trigger] recs[i], filter) && s@ == recs[i].text@
}

/// Retrieval never returns more than `k` texts, and every returned text is
/// the text of a stored record whose tags are a superset of the filter.
pub proof fn lemma_retrieval_bounded_and_matching(
    recs: Seq<MemoryRecord>,
    q: Seq<i32>,
    filter: Seq<TagPair>,
    k: int,
    out: Seq<String>,
)
    requires
        k >= 0,
        retrieval_ok(recs, q, filter, k, out),
    ensures
        out.len() <= k,
        forall|j: int| 0 <= j < out.len() ==> text_of_matching(recs, filter, #[trigger] out[j]),
{
    let w = choose|w: Seq<int>| retrieval_witness(recs, q, filter, k, out, w);
    lemma_match_count_nonneg(recs, filter, recs.len() as int);
    assert forall|j: int| 0 <= j < out.len() implies text_of_matching(
        recs,
        filter,
        #[trigger] out[j],
    ) by {
        assert(0 <= w[j] < recs.len() && rec_matches(recs[w[j]], filter) && out[j]@
            == recs[w[j]].text@);
    }
}

/// Round trip: after storing a record, retrieving with the record's own
/// embedding and a filter that it matches returns that record's text first,
/// because its distance to itself is zero, the least possible.  The one case
/// left out: when an older matching record already sits at distance zero
/// from the query, the tie breaks to the older record.
pub proof fn lemma_round_trip_first(
    recs: Seq<MemoryRecord>,
    r: MemoryRecord,
    filter: Seq<TagPair>,
    k: int,
    out: Seq<String>,
)
    requires
        k >= 1,
        rec_matches(r, filter),
        forall|i: int|
            0 <= i < recs.len() && rec_matches(#[trigger] recs[i], filter) ==> dist2(
                recs[i].embedding@,
                r.embedding@,
            ) != 0,
        retrieval_ok(recs.push(r), r.embedding@, filter, k, out),
    ensures
        out.len() >= 1,
        out[0]@ == r.text@,
{
    let recs2 = recs.push(r);
    let q = r.embedding@;
    let n = recs.len() as int;
    let w = choose|w: Seq<int>| retrieval_witness(recs2, q, filter, k, out, w);
    lemma_dist2_self_zero(q, q.len() as int);
    assert(dist2(recs2[n].embedding@, q) == 0);
    lemma_match_count_nonneg(recs2, filter, n);
    assert(match_count_upto(recs2, filter, n + 1) >= 1);
    assert(out.len() >= 1);
    assert(0 <= w[0] < recs2.len());
    lemma_dist2_upto_nonneg(recs2[w[0]].embedding@, q, recs2[w[0]].embedding@.len() as int);
    if w[0] != n {
        assert(recs2[w[0]] == recs[w[0]]);
        assert(dist2(recs2[w[0]].embedding@, q) != 0);
        if w.contains(n) {
            let j = choose|j: int| 0 <= j < w.len() && w[j] == n;
            assert(j != 0);
            assert(key_lt(
                dist2(recs2[w[0]].embedding@, q),
                w[0],
                dist2(recs2[w[j]].embedding@, q),
                w[j],
            ));
            assert(false);
        } else {
            assert(key_lt(
                dist2(recs2[w[0]].embedding@, q),
                w[0],
                dist2(recs2[n].embedding@, q),
                n,
            ));
            assert(false);
        }
    }
    assert(out[0]@ == recs2[n].text@);
}

/// Append-only storage of memory records with similarity retrieval.
pub struct MemoryStore {
    records: Vec<MemoryRecord>,
    dim: usize,
}

impl View for MemoryStore {
    type V = Seq<MemoryRecord>;

    closed spec fn view(&self) -> Seq<MemoryRecord> {
        self.records@
    }
}

impl MemoryStore {
    /// The fixed embedding dimension of this store.
    pub closed spec fn spec_dim(&self) -> nat {
        self.dim as nat
    }

    /// Every stored embedding has the store's fixed dimension.
    pub open spec fn wf(&self) -> bool {
        forall|i: int|
            0 <= i < self@.len() ==> (#[trigger] self@[i]).embedding@.len() == self.spec_dim()
    }

    /// An empty store for embeddings of dimension `dim`.
    pub fn new(dim: usize) -> (s: MemoryStore)
        ensures
            s@ == Seq::<MemoryRecord>::empty(),
            s.spec_dim() == dim,
            s.wf(),
    {
        MemoryStore { records: Vec::new(), dim }
    }

    pub fn len(&self) -> (n: usize)
        ensures
            n == self@.len(),
    {
        self.records.len()
    }

    pub fn dim(&self) -> (n: usize)
        ensures
            n == self.spec_dim(),
    {
        self.dim
    }

    /// Appends one record; existing records are never mutated or removed.
    pub fn store(&mut self, r: MemoryRecord)
        requires
            old(self).wf(),
            r.embedding@.len() == old(self).spec_dim(),
        ensures
            final(self)@ == old(self)@.push(r),
            final(self).spec_dim() == old(self).spec_dim(),
            final(self).wf(),
    {
        self.records.push(r);
    }

    /// Returns the texts of up to `k` records whose tags are a superset of
    /// `filter`, most similar to `query` first, ties broken by insertion
    /// order.  An empty result is valid and means "no relevant memory".
    pub fn retrieve_similar(&self, query: &Vec<i32>, filter: &Vec<TagPair>, k: usize) -> (out: Vec<
        String,
    >)
        requires
            self.wf(),
            query@.len() == self.spec_dim(),
        ensures
            retrieval_ok(self@, query@, filter@, k as int, out@),
    {
        let ghost recs = self.records@;
        let ghost q = query@;
        let ghost f = filter@;
        let n = self.records.len();
        let mut cands: Vec<(u128, usize)> = Vec::new();
        let mut i: usize = 0;
        while i < n
            invariant
                i <= n,
                n == recs.len(),
                self.records@ == recs,
                self.wf(),
                q == query@,
                f == filter@,
                query@.len() == self.spec_dim(),
                cands@.len() == match_count_upto(recs, f, i as int),
                forall|j: int| 0 <= j < cands@.len() ==> cand_ok(recs, q, f, #[trigger] cands@[j]),
                forall|j1: int, j2: int|
                    0 <= j1 < j2 < cands@.len() ==> (#[trigger] cands@[j1]).1
                        < (#[trigger] cands@[j2]).1,
                forall|j: int| 0 <= j < cands@.len() ==> (#[trigger] cands@[j]).1 < i,
                forall|ii: int|
                    0 <= ii < i && rec_matches(#[trigger] recs[ii], f) ==> cands_has_idx(
                        cands@,
                        ii,
                    ),
            decreases n - i,
        {
            proof {
                assert(match_count_upto(recs, f, i as int + 1) == match_count_upto(recs, f, i as int)
                    + if rec_matches(recs[i as int], f) {
                    1int
                } else {
                    0int
                });
            }
            if tags_match_exec(filter, &self.records[i].tags) {
                proof {
                    assert(self@[i as int].embedding@.len() == self.spec_dim());
                }
                let ghost old_cands = cands@;
                let d = sq_dist(&self.records[i].embedding, query);
                cands.push((d, i));
                proof {
                    assert(cands@[cands@.len() - 1] == (d, i));
                    assert(cand_ok(recs, q, f, (d, i)));
                    assert forall|ii: int|
                        0 <= ii < i + 1 && rec_matches(#[trigger] recs[ii], f) implies cands_has_idx(
                        cands@,
                        ii,
                    ) by {
                        if ii == i as int {
                            assert(cands@[cands@.len() - 1].1 == ii);
                        } else {
                            let j = choose|j: int|
                                0 <= j < old_cands.len() && (#[trigger] old_cands[j]).1 == ii;
                            assert(cands@[j] == old_cands[j]);
                        }
                    }
                }
            }
            i = i + 1;
        }
        let ghost cands0 = cands@;
        let mut out: Vec<String> = Vec::new();
        let ghost mut w: Seq<int> = Seq::empty();
        while out.len() < k && cands.len() > 0
            invariant
                self.records@ == recs,
                q == query@,
                f == filter@,
                out@.len() == w.len(),
                out@.len() + cands@.len() == cands0.len(),
                out@.len() <= k,
                cands0.len() == match_count_upto(recs, f, recs.len() as int),
                forall|j: int| 0 <= j < cands@.len() ==> cand_ok(recs, q, f, #[trigger] cands@[j]),
                forall|j: int|
                    0 <= j < w.len() ==> 0 <= #[trigger] w[j] < recs.len() && rec_matches(
                        recs[w[j]],
                        f,
                    ) && out@[j]@ == recs[w[j]].text@,
                forall|j1: int, j2: int|
                    0 <= j1 < j2 < w.len() ==> key_lt(
                        dist2(recs[#[trigger] w[j1]].embedding@, q),
                        w[j1],
                        dist2(recs[#[trigger] w[j2]].embedding@, q),
                        w[j2],
                    ),
                forall|j: int, e: int|
                    0 <= j < w.len() && 0 <= e < cands@.len() ==> key_lt(
                        dist2(recs[#[trigger] w[j]].embedding@, q),
                        w[j],
                        (#[trigger] cands@[e]).0 as int,
                        cands@[e].1 as int,
                    ),
                forall|e1: int, e2: int|
                    0 <= e1 < e2 < cands@.len() ==> (#[trigger] cands@[e1]).1
                        != (#[trigger] cands@[e2]).1,
                forall|j: int, e: int|
                    0 <= j < w.len() && 0 <= e < cands@.len() ==> #[trigger] w[j]
                        != (#[trigger] cands@[e]).1 as int,
                forall|ii: int|
                    0 <= ii < recs.len() && rec_matches(#[trigger] recs[ii], f) ==> w.contains(ii)
                        || cands_has_idx(cands@, ii),
            decreases cands@.len(),
        {
            let mut best: usize = 0;
            let mut e: usize = 1;
            while e < cands.len()
                invariant
                    cands@.len() > 0,
                    best < e,
                    e <= cands@.len(),
                    forall|t: int|
                        0 <= t < e ==> (#[trigger] cands@[t]).0 > cands@[best as int].0 || (
                        cands@[t].0 == cands@[best as int].0 && cands@[t].1
                            >= cands@[best as int].1),
                decreases cands@.len() - e,
            {
                if cands[e].0 < cands[best].0 || (cands[e].0 == cands[best].0 && cands[e].1
                    < cands[best].1) {
                    best = e;
                }
                e = e + 1;
            }
            let ghost old_cands = cands@;
            let ghost old_w = w;
            proof {
                assert(cand_ok(recs, q, f, old_cands[best as int]));
            }
            let picked = cands.remove(best);
            out.push(self.records[picked.1].text.clone());
            proof {
                w = old_w.push(picked.1 as int);
                assert forall|e2: int| 0 <= e2 < cands@.len() implies #[trigger] cands@[e2] == (
                if e2 < best {
                    old_cands[e2]
                } else {
                    old_cands[e2 + 1]
                }) by {}
                assert forall|e2: int| 0 <= e2 < cands@.len() implies key_lt(
                    picked.0 as int,
                    picked.1 as int,
                    (#[trigger] cands@[e2]).0 as int,
                    cands@[e2].1 as int,
                ) by {
                    let oe = if e2 < best { e2 } else { e2 + 1 };
                    assert(cands@[e2] == old_cands[oe]);
                    assert(old_cands[oe].1 != picked.1);
                }
                assert forall|ii: int|
                    0 <= ii < recs.len() && rec_matches(#[trigger] recs[ii], f) implies w.contains(
                    ii,
                ) || cands_has_idx(cands@, ii) by {
                    if old_w.contains(ii) {
                        let j = choose|j: int| 0 <= j < old_w.len() && old_w[j] == ii;
                        assert(w[j] == ii);
                        assert(w.contains(ii));
                    } else if cands_has_idx(old_cands, ii) {
                        let j = choose|j: int|
                            0 <= j < old_cands.len() && (#[trigger] old_cands[j]).1 == ii;
                        if j == best {
                            assert(w[w.len() - 1] == ii);
                            assert(w.contains(ii));
                        } else if j < best {
                            assert(cands@[j].1 == ii);
                            assert(cands_has_idx(cands@, ii));
                        } else {
                            assert(cands@[j - 1].1 == ii);
                            assert(cands_has_idx(cands@, ii));
                        }
                    }
                }
            }
        }
        proof {
            if out@.len() < k {
                assert(cands@.len() == 0);
            }
            assert(out@.len() == spec_min(k as int, match_count_upto(recs, f, recs.len() as int)));
            assert forall|i2: int, j: int|
                0 <= i2 < recs.len() && rec_matches(#[trigger] recs[i2], f) && !w.contains(i2) && 0
                    <= j < w.len() implies key_lt(
                dist2(recs[#[trigger] w[j]].embedding@, q),
                w[j],
                dist2(recs[i2].embedding@, q),
                i2,
            ) by {
                assert(cands_has_idx(cands@, i2));
                let e = choose|e: int| 0 <= e < cands@.len() && (#[trigger] cands@[e]).1 == i2;
                assert(cand_ok(recs, q, f, cands@[e]));
            }
            assert(retrieval_witness(recs, q, f, k as int, out@, w));
        }
        out
    }
}

} // verus!
