//! Corpus reduction: per-document stop maps, their merge, and the
//! deterministically ordered corpus entries.
//!
//! A `DocMap` holds contributions in arrival order; its view is the map
//! from stop identifier to the concatenation, in order, of every list of
//! records contributed under that identifier.

use crate::text::{eq_chars, lex_lt_vec};
use crate::{recs_view, RecordView, StopDetailsBus};
use vstd::prelude::*;

verus! {

/// Map view of a sequence of contributions: records for the same
/// identifier concatenate in order.
pub open spec fn entries_map_view(es: Seq<(Seq<char>, Seq<RecordView>)>) -> Map<
    Seq<char>,
    Seq<RecordView>,
>
    decreases es.len(),
{
    if es.len() == 0 {
        Map::empty()
    } else {
        let m = entries_map_view(es.drop_last());
        let k = es.last().0;
        let v = es.last().1;
        m.insert(
            k,
            if m.contains_key(k) {
                m[k] + v
            } else {
                v
            },
        )
    }
}

/// The entry views of a backing vector.
pub open spec fn doc_entries_view(es: Seq<(Vec<char>, Vec<StopDetailsBus>)>) -> Seq<
    (Seq<char>, Seq<RecordView>),
> {
    es.map_values(|e: (Vec<char>, Vec<StopDetailsBus>)| (e.0@, recs_view(e.1@)))
}

/// No two contributions share an identifier.
pub open spec fn unique_keys(es: Seq<(Seq<char>, Seq<RecordView>)>) -> bool {
    forall|p: int, q: int| 0 <= p < q < es.len() ==> (#[trigger] es[p]).0 != (#[trigger] es[q]).0
}

/// Pointwise merge of two stop maps: record lists concatenate on shared
/// identifiers, left operand's records first.
pub open spec fn merge_maps(
    a: Map<Seq<char>, Seq<RecordView>>,
    b: Map<Seq<char>, Seq<RecordView>>,
) -> Map<Seq<char>, Seq<RecordView>> {
    Map::new(
        |k: Seq<char>| a.contains_key(k) || b.contains_key(k),
        |k: Seq<char>|
            if a.contains_key(k) && b.contains_key(k) {
                a[k] + b[k]
            } else if b.contains_key(k) {
                b[k]
            } else {
                a[k]
            },
    )
}

/// Folding the concatenation of two contribution lists merges their folds.
pub proof fn lemma_entries_concat(
    a: Seq<(Seq<char>, Seq<RecordView>)>,
    b: Seq<(Seq<char>, Seq<RecordView>)>,
)
    ensures
        entries_map_view(a + b) == merge_maps(entries_map_view(a), entries_map_view(b)),
    decreases b.len(),
{
    if b.len() == 0 {
        assert(a + b =~= a);
        assert(merge_maps(entries_map_view(a), entries_map_view(b)) =~~= entries_map_view(a));
    } else {
        lemma_entries_concat(a, b.drop_last());
        assert((a + b).drop_last() =~= a + b.drop_last());
        assert(entries_map_view(a + b) =~~= merge_maps(
            entries_map_view(a),
            entries_map_view(b),
        ));
    }
}

/// Reduce commutativity: documents that touch no common stop may be merged
/// in either order, with the same corpus map as outcome.
pub proof fn lemma_merge_disjoint_commutes(
    a: Map<Seq<char>, Seq<RecordView>>,
    b: Map<Seq<char>, Seq<RecordView>>,
)
    requires
        a.dom().disjoint(b.dom()),
    ensures
        merge_maps(a, b) == merge_maps(b, a),
{
    assert forall|k: Seq<char>| !(a.contains_key(k) && b.contains_key(k)) by {
        if a.contains_key(k) && b.contains_key(k) {
            assert(a.dom().contains(k) && b.dom().contains(k));
        }
    }
    assert(merge_maps(a, b) =~= merge_maps(b, a));
}

/// An identifier is in the fold exactly when some contribution carries it.
proof fn lemma_emv_key(es: Seq<(Seq<char>, Seq<RecordView>)>, k: Seq<char>)
    ensures
        entries_map_view(es).contains_key(k) <==> exists|t: int|
            0 <= t < es.len() && (#[trigger] es[t]).0 == k,
    decreases es.len(),
{
    if es.len() > 0 {
        lemma_emv_key(es.drop_last(), k);
        if es.last().0 == k {
            assert(es[es.len() - 1].0 == k);
        } else {
            if exists|t: int| 0 <= t < es.len() && (#[trigger] es[t]).0 == k {
                let t = choose|t: int| 0 <= t < es.len() && (#[trigger] es[t]).0 == k;
                assert(t < es.len() - 1);
                assert(es.drop_last()[t] == es[t]);
            }
        }
    }
}

/// With unique identifiers, the fold maps each contribution's identifier to
/// exactly its records.
proof fn lemma_emv_at(es: Seq<(Seq<char>, Seq<RecordView>)>, j: int)
    requires
        unique_keys(es),
        0 <= j < es.len(),
    ensures
        entries_map_view(es).contains_key(es[j].0),
        entries_map_view(es)[es[j].0] == es[j].1,
    decreases es.len(),
{
    if j == es.len() - 1 {
        lemma_emv_key(es.drop_last(), es[j].0);
    } else {
        lemma_emv_at(es.drop_last(), j);
    }
}

/// Inserting a contribution with a fresh identifier, at any position,
/// inserts its records into the fold.
proof fn lemma_emv_insert(
    es: Seq<(Seq<char>, Seq<RecordView>)>,
    j: int,
    e: (Seq<char>, Seq<RecordView>),
)
    requires
        0 <= j <= es.len(),
        forall|t: int| 0 <= t < es.len() ==> (#[trigger] es[t]).0 != e.0,
    ensures
        entries_map_view(es.insert(j, e)) == entries_map_view(es).insert(e.0, e.1),
    decreases es.len(),
{
    lemma_emv_key(es, e.0);
    if j == es.len() {
        assert(es.insert(j, e).drop_last() =~= es);
    } else {
        assert(es.insert(j, e).drop_last() =~= es.drop_last().insert(j, e));
        assert(es.insert(j, e).last() == es.last());
        lemma_emv_insert(es.drop_last(), j, e);
        lemma_emv_key(es.drop_last(), e.0);
        assert(entries_map_view(es.insert(j, e)) =~~= entries_map_view(es).insert(e.0, e.1));
    }
}

/// With unique identifiers, replacing the records of one contribution
/// rewrites that identifier's fold entry.
proof fn lemma_emv_update(es: Seq<(Seq<char>, Seq<RecordView>)>, j: int, w: Seq<RecordView>)
    requires
        unique_keys(es),
        0 <= j < es.len(),
    ensures
        entries_map_view(es.update(j, (es[j].0, w))) == entries_map_view(es).insert(es[j].0, w),
    decreases es.len(),
{
    let k = es[j].0;
    if j == es.len() - 1 {
        assert(es.update(j, (k, w)).drop_last() =~= es.drop_last());
        lemma_emv_key(es.drop_last(), k);
        assert(entries_map_view(es.update(j, (k, w))) =~~= entries_map_view(es).insert(k, w));
    } else {
        assert(es.update(j, (k, w)).drop_last() =~= es.drop_last().update(j, (k, w)));
        assert(es.update(j, (k, w)).last() == es.last());
        lemma_emv_update(es.drop_last(), j, w);
        lemma_emv_key(es.drop_last(), k);
        assert(entries_map_view(es.update(j, (k, w))) =~~= entries_map_view(es).insert(k, w));
    }
}

/// A stop-to-departures map, contributions kept in arrival order.
pub struct DocMap {
    pub entries: Vec<(Vec<char>, Vec<StopDetailsBus>)>,
}

impl View for DocMap {
    type V = Map<Seq<char>, Seq<RecordView>>;

    open spec fn view(&self) -> Map<Seq<char>, Seq<RecordView>> {
        entries_map_view(doc_entries_view(self.entries@))
    }
}

impl DocMap {
    /// An empty map.
    pub fn new() -> (r: DocMap)
        ensures
            r@ == Map::<Seq<char>, Seq<RecordView>>::empty(),
    {
        let r = DocMap { entries: Vec::new() };
        proof {
            assert(doc_entries_view(r.entries@) =~= Seq::<(Seq<char>, Seq<RecordView>)>::empty());
        }
        r
    }

    /// Adds one contribution: records append under an identifier already
    /// present; a new identifier starts its list.
    pub fn add(&mut self, id: Vec<char>, recs: Vec<StopDetailsBus>)
        ensures
            final(self)@ == (if old(self)@.contains_key(id@) {
                old(self)@.insert(id@, old(self)@[id@] + recs_view(recs@))
            } else {
                old(self)@.insert(id@, recs_view(recs@))
            }),
    {
        let ghost k = id@;
        let ghost v = recs_view(recs@);
        self.entries.push((id, recs));
        proof {
            assert(doc_entries_view(self.entries@).drop_last() =~= doc_entries_view(
                old(self).entries@,
            ));
            assert(doc_entries_view(self.entries@).last() == (k, v));
        }
    }

    /// Merges another document's contributions after this one's; record
    /// lists concatenate on shared identifiers.
    pub fn merge(&mut self, other: DocMap)
        ensures
            final(self)@ == merge_maps(old(self)@, other@),
    {
        let ghost a = doc_entries_view(self.entries@);
        let ghost b = doc_entries_view(other.entries@);
        let mut other = other;
        self.entries.append(&mut other.entries);
        proof {
            assert(doc_entries_view(self.entries@) =~= a + b);
            lemma_entries_concat(a, b);
        }
    }
}

/// Left fold of a sequence of document maps into one corpus map.
pub open spec fn corpus_of(ms: Seq<Map<Seq<char>, Seq<RecordView>>>) -> Map<
    Seq<char>,
    Seq<RecordView>,
>
    decreases ms.len(),
{
    if ms.len() == 0 {
        Map::empty()
    } else {
        merge_maps(corpus_of(ms.drop_last()), ms.last())
    }
}

/// Reduces every document's map, in order, into one corpus map.
pub fn reduce(maps: Vec<DocMap>) -> (r: DocMap)
    ensures
        r@ == corpus_of(maps@.map_values(|d: DocMap| d@)),
{
    let ghost src = maps@.map_values(|d: DocMap| d@);
    let mut maps = maps;
    let mut acc = DocMap::new();
    let ghost i: int = 0;
    proof {
        assert(maps@.map_values(|d: DocMap| d@) =~= src.skip(0));
        assert(src.take(0) =~= Seq::<Map<Seq<char>, Seq<RecordView>>>::empty());
    }
    while maps.len() > 0
        invariant
            0 <= i <= src.len(),
            maps@.map_values(|d: DocMap| d@) == src.skip(i),
            acc@ == corpus_of(src.take(i)),
        decreases src.len() - i,
    {
        let ghost pre = maps@;
        let d = maps.remove(0);
        proof {
            assert(pre.map_values(|d: DocMap| d@).len() == pre.len());
            assert(pre.len() == src.len() - i);
            assert(d == pre[0]);
            assert(pre.map_values(|d: DocMap| d@)[0] == pre[0]@);
            assert(src.skip(i as int)[0] == src[i]);
            assert(d@ == src[i]);
            let ghost cur = maps@.map_values(|d: DocMap| d@);
            assert(cur.len() == maps@.len());
            assert(maps@.len() + 1 == pre.len());
            assert forall|t: int| 0 <= t < cur.len() implies #[trigger] cur[t] == src.skip(
                i + 1,
            )[t] by {
                assert(maps@[t] == pre[t + 1]);
                assert(pre.map_values(|d: DocMap| d@)[t + 1] == pre[t + 1]@);
                assert(src.skip(i as int)[t + 1] == src[i + 1 + t]);
            }
            assert(cur =~= src.skip(i + 1));
        }
        acc.merge(d);
        proof {
            assert(src.take(i + 1).drop_last() =~= src.take(i));
            assert(src.take(i + 1).last() == src[i]);
        }
        proof {
            i = i + 1;
        }
    }
    acc
}

/// The corpus entries of `m`, one per identifier, in ascending identifier
/// order, each identifier's records in accumulation order.
pub fn sorted_entries(m: DocMap) -> (out: Vec<(Vec<char>, Vec<StopDetailsBus>)>)
    ensures
        entries_map_view(doc_entries_view(out@)) == m@,
        unique_keys(doc_entries_view(out@)),
        forall|p: int, q: int|
            0 <= p < q < out@.len() ==> crate::text::lex_lt(out@[p].0@, out@[q].0@),
{
    let ghost src = doc_entries_view(m.entries@);
    let mut m = m;
    let mut out: Vec<(Vec<char>, Vec<StopDetailsBus>)> = Vec::new();
    let ghost i: int = 0;
    proof {
        assert(doc_entries_view(m.entries@) =~= src.skip(0));
        assert(doc_entries_view(out@) =~= Seq::<(Seq<char>, Seq<RecordView>)>::empty());
        assert(src.take(0) =~= Seq::<(Seq<char>, Seq<RecordView>)>::empty());
    }
    while m.entries.len() > 0
        invariant
            0 <= i <= src.len(),
            doc_entries_view(m.entries@) == src.skip(i),
            entries_map_view(doc_entries_view(out@)) == entries_map_view(src.take(i)),
            unique_keys(doc_entries_view(out@)),
            forall|p: int, q: int|
                0 <= p < q < out@.len() ==> crate::text::lex_lt(out@[p].0@, out@[q].0@),
        decreases src.len() - i,
    {
        let ghost out_pre = doc_entries_view(out@);
        let ghost pre = m.entries@;
        let (id, recs) = m.entries.remove(0);
        proof {
            let f = |e: (Vec<char>, Vec<StopDetailsBus>)| (e.0@, recs_view(e.1@));
            assert(pre.map_values(f).len() == pre.len());
            assert(pre.len() == src.len() - i);
            assert((id, recs) == pre[0]);
            assert(pre.map_values(f)[0] == f(pre[0]));
            assert(src.skip(i as int)[0] == src[i]);
            assert((id@, recs_view(recs@)) == src[i]);
            let ghost cur = m.entries@.map_values(f);
            assert(cur.len() == m.entries@.len());
            assert(m.entries@.len() + 1 == pre.len());
            assert forall|t: int| 0 <= t < cur.len() implies #[trigger] cur[t] == src.skip(
                i + 1,
            )[t] by {
                assert(m.entries@[t] == pre[t + 1]);
                assert(pre.map_values(f)[t + 1] == f(pre[t + 1]));
                assert(src.skip(i as int)[t + 1] == src[i + 1 + t]);
            }
            assert(cur =~= src.skip(i + 1));
            assert(doc_entries_view(m.entries@) == cur);
            assert(src.take(i + 1).drop_last() =~= src.take(i));
            assert(src.take(i + 1).last() == src[i]);
        }
        let mut j: usize = 0;
        let mut found = false;
        while j < out.len() && !found
            invariant
                j <= out@.len(),
                out_pre == doc_entries_view(out@),
                found ==> j < out@.len() && out@[j as int].0@ == id@,
                !found ==> forall|t: int| 0 <= t < j ==> (#[trigger] out@[t]).0@ != id@,
            decreases out@.len() - j + (if found {
                0int
            } else {
                1int
            }),
        {
            if eq_chars(&out[j].0, &id) {
                found = true;
            } else {
                j += 1;
            }
        }
        if found {
            let ghost prev = out@;
            let (kk, mut vv) = out.remove(j);
            let ghost vv_old = vv@;
            let mut extra = recs;
            vv.append(&mut extra);
            proof {
                assert(recs_view(vv@) =~= recs_view(vv_old) + recs_view(recs@));
            }
            out.insert(j, (kk, vv));
            proof {
                let es = out_pre;
                assert(out@ =~= prev.update(j as int, (kk, vv)));
                assert(doc_entries_view(out@) =~= es.update(
                    j as int,
                    (es[j as int].0, recs_view(vv@)),
                ));
                assert(forall|t: int|
                    0 <= t < out@.len() ==> (#[trigger] out@[t]).0@ == prev[t].0@);
                lemma_emv_at(es, j as int);
                lemma_emv_update(es, j as int, recs_view(vv@));
                assert(unique_keys(doc_entries_view(out@)));
                assert(entries_map_view(doc_entries_view(out@)) == entries_map_view(
                    src.take(i + 1),
                ));
            }
        } else {
            proof {
                lemma_emv_key(out_pre, id@);
            }
            let mut p: usize = 0;
            while p < out.len() && lex_lt_vec(&out[p].0, &id)
                invariant
                    p <= out@.len(),
                    out_pre == doc_entries_view(out@),
                    forall|t: int|
                        0 <= t < p ==> crate::text::lex_lt((#[trigger] out@[t]).0@, id@),
                decreases out@.len() - p,
            {
                p += 1;
            }
            proof {
                if (p as int) < out@.len() {
                    crate::text::lemma_lex_total(out@[p as int].0@, id@);
                }
            }
            let ghost prev = out@;
            out.insert(p, (id, recs));
            proof {
                let es = out_pre;
                assert(doc_entries_view(out@) =~= es.insert(p as int, src[i]));
                lemma_emv_insert(es, p as int, src[i]);
                assert(unique_keys(doc_entries_view(out@))) by {
                    let ds = doc_entries_view(out@);
                    assert forall|a: int, b: int| 0 <= a < b < ds.len() implies (
                    #[trigger] ds[a]).0 != (#[trigger] ds[b]).0 by {
                        if a < p && b > p {
                            assert(ds[a] == es[a] && ds[b] == es[b - 1]);
                        } else if a < p && b == p {
                            assert(ds[a] == es[a]);
                        } else if a == p && b > p {
                            assert(ds[b] == es[b - 1]);
                        } else if b < p {
                            assert(ds[a] == es[a] && ds[b] == es[b]);
                        } else if a > p {
                            assert(ds[a] == es[a - 1] && ds[b] == es[b - 1]);
                        }
                    }
                }
                assert forall|a: int, b: int| 0 <= a < b < out@.len() implies crate::text::lex_lt(
                    (#[trigger] out@[a]).0@,
                    (#[trigger] out@[b]).0@,
                ) by {
                    if a < p && b == p {
                    } else if a == p && b > p {
                        if b - 1 > p {
                            crate::text::lemma_lex_trans(id@, out_pre[p as int].0, out_pre[b - 1].0);
                        }
                    } else if a < p && b > p {
                        if b - 1 == p {
                        } else {
                        }
                    }
                }
                assert(entries_map_view(doc_entries_view(out@)) == entries_map_view(
                    src.take(i + 1),
                ));
            }
        }
        proof {
            i = i + 1;
        }
    }
    proof {
        assert(src.take(i) =~= src);
    }
    out
}

} // verus!
