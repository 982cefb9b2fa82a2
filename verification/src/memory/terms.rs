//! Term counting shared by the keyword and vector indices: how often each term
//! occurs in each indexed document.
use crate::memory::types::{MemoryId, texts};
use crate::text::{owned, str_eq};
use vstd::prelude::*;

verus! {

/// Number of occurrences of `t` in `toks`.
pub open spec fn occurrences(toks: Seq<Seq<char>>, t: Seq<char>) -> nat
    decreases toks.len(),
{
    if toks.len() == 0 {
        0
    } else {
        occurrences(toks.drop_last(), t) + if toks.last() == t {
            1nat
        } else {
            0nat
        }
    }
}

/// Appending a token adds one occurrence of that token and no other.
pub proof fn lemma_occurrences_push(toks: Seq<Seq<char>>, x: Seq<char>, t: Seq<char>)
    ensures
        occurrences(toks.push(x), t) == occurrences(toks, t) + if x == t {
            1nat
        } else {
            0nat
        },
{
    assert(toks.push(x).drop_last() =~= toks);
}

/// A term occurs at most as often as there are tokens.
pub proof fn lemma_occurrences_bound(toks: Seq<Seq<char>>, t: Seq<char>)
    ensures
        occurrences(toks, t) <= toks.len(),
    decreases toks.len(),
{
    if toks.len() > 0 {
        lemma_occurrences_bound(toks.drop_last(), t);
    }
}

/// The count recorded for key `k` in a list of (key, count) pairs: the last one
/// recorded for it, or zero when there is none.
pub open spec fn lookup<K>(v: Seq<(K, nat)>, k: K) -> nat
    decreases v.len(),
{
    if v.len() == 0 {
        0
    } else if v.last().0 == k {
        v.last().1
    } else {
        lookup(v.drop_last(), k)
    }
}

/// Each key occurs at most once and every count is positive.
pub open spec fn keyed<K>(v: Seq<(K, nat)>) -> bool {
    &&& forall|i: int, j: int| 0 <= i < j < v.len() ==> v[i].0 != v[j].0
    &&& forall|i: int| 0 <= i < v.len() ==> v[i].1 > 0
}

/// The sum of the counts.
pub open spec fn total<K>(v: Seq<(K, nat)>) -> nat
    decreases v.len(),
{
    if v.len() == 0 {
        0
    } else {
        total(v.drop_last()) + v.last().1
    }
}

/// A key that occurs nowhere has count zero.
pub proof fn lemma_lookup_absent<K>(v: Seq<(K, nat)>, k: K)
    requires
        forall|i: int| 0 <= i < v.len() ==> v[i].0 != k,
    ensures
        lookup(v, k) == 0,
    decreases v.len(),
{
    if v.len() > 0 {
        assert(v.last() == v[v.len() - 1]);
        lemma_lookup_absent(v.drop_last(), k);
    }
}

/// With distinct keys, the count of a listed key is the one listed with it.
pub proof fn lemma_lookup_at<K>(v: Seq<(K, nat)>, j: int)
    requires
        forall|a: int, b: int| 0 <= a < b < v.len() ==> v[a].0 != v[b].0,
        0 <= j < v.len(),
    ensures
        lookup(v, v[j].0) == v[j].1,
    decreases v.len(),
{
    if j < v.len() - 1 {
        assert(v.last() == v[v.len() - 1]);
        assert(v.drop_last()[j] == v[j]);
        lemma_lookup_at(v.drop_last(), j);
    }
}

/// Appending a pair records its count for its key and changes no other key.
pub proof fn lemma_lookup_push<K>(v: Seq<(K, nat)>, p: (K, nat), k: K)
    ensures
        lookup(v.push(p), k) == if k == p.0 {
            p.1
        } else {
            lookup(v, k)
        },
{
    assert(v.push(p).drop_last() =~= v);
}

/// With distinct keys, replacing the count at one position changes the count of
/// that key only.
pub proof fn lemma_lookup_update<K>(v: Seq<(K, nat)>, j: int, c: nat, k: K)
    requires
        forall|a: int, b: int| 0 <= a < b < v.len() ==> v[a].0 != v[b].0,
        0 <= j < v.len(),
    ensures
        lookup(v.update(j, (v[j].0, c)), k) == if k == v[j].0 {
            c
        } else {
            lookup(v, k)
        },
    decreases v.len(),
{
    let u = v.update(j, (v[j].0, c));
    assert(u.last() == u[u.len() - 1]);
    assert(v.last() == v[v.len() - 1]);
    if j == v.len() - 1 {
        assert(u.drop_last() =~= v.drop_last());
    } else {
        assert(u.drop_last() =~= v.drop_last().update(j, (v[j].0, c)));
        assert(v.drop_last()[j] == v[j]);
        lemma_lookup_update(v.drop_last(), j, c, k);
    }
}

/// With distinct keys, removing the pair at one position leaves that key with
/// count zero and changes no other key.
pub proof fn lemma_lookup_remove<K>(v: Seq<(K, nat)>, j: int, k: K)
    requires
        forall|a: int, b: int| 0 <= a < b < v.len() ==> v[a].0 != v[b].0,
        0 <= j < v.len(),
    ensures
        lookup(v.remove(j), k) == if k == v[j].0 {
            0
        } else {
            lookup(v, k)
        },
    decreases v.len(),
{
    let r = v.remove(j);
    assert(v.last() == v[v.len() - 1]);
    if j == v.len() - 1 {
        assert(r =~= v.drop_last());
        if k == v[j].0 {
            assert forall|i: int| 0 <= i < v.drop_last().len() implies v.drop_last()[i].0 != k by {
                assert(v.drop_last()[i] == v[i]);
            }
            lemma_lookup_absent(v.drop_last(), k);
        }
    } else {
        assert(r.last() == v.last());
        assert(r.drop_last() =~= v.drop_last().remove(j));
        assert(v.drop_last()[j] == v[j]);
        lemma_lookup_remove(v.drop_last(), j, k);
    }
}

/// Removing the pair at one position lowers the sum by its count.
pub proof fn lemma_total_remove<K>(v: Seq<(K, nat)>, j: int)
    requires
        0 <= j < v.len(),
    ensures
        total(v.remove(j)) + v[j].1 == total(v),
    decreases v.len(),
{
    let r = v.remove(j);
    if j == v.len() - 1 {
        assert(r =~= v.drop_last());
    } else {
        assert(r.drop_last() =~= v.drop_last().remove(j));
        assert(r.last() == v.last());
        assert(v.drop_last()[j] == v[j]);
        lemma_total_remove(v.drop_last(), j);
    }
}

/// A keyed list holds one pair for each key of positive count, so it is as long
/// as the set of those keys.
pub proof fn lemma_keyed_len<K>(v: Seq<(K, nat)>, s: Set<K>)
    requires
        keyed(v),
        s.finite(),
        forall|k: K| s.contains(k) <==> lookup(v, k) > 0,
    ensures
        v.len() == s.len(),
{
    let keys = v.map_values(|p: (K, nat)| p.0);
    assert forall|i: int, j: int| 0 <= i < keys.len() && 0 <= j < keys.len() && i != j implies
        keys[i] != keys[j] by {
        if i < j {
            assert(v[i].0 != v[j].0);
        } else {
            assert(v[j].0 != v[i].0);
        }
    }
    assert(keys.no_duplicates());
    keys.unique_seq_to_set();
    assert forall|k: K| #[trigger] keys.to_set().contains(k) <==> s.contains(k) by {
        if keys.to_set().contains(k) {
            let i = choose|i: int| 0 <= i < keys.len() && keys[i] == k;
            lemma_lookup_at(v, i);
        }
        if s.contains(k) {
            if forall|i: int| 0 <= i < v.len() ==> v[i].0 != k {
                lemma_lookup_absent(v, k);
            }
            let i = choose|i: int| 0 <= i < v.len() && v[i].0 == k;
            assert(keys[i] == k);
        }
    }
    assert(keys.to_set() =~= s);
}

/// A list of (term, count) pairs as plain values.
pub open spec fn tally(v: Seq<(String, usize)>) -> Seq<(Seq<char>, nat)> {
    v.map_values(|p: (String, usize)| (p.0@, p.1 as nat))
}

/// A list of (document, count) pairs as plain values.
pub open spec fn per_doc(v: Seq<(MemoryId, usize)>) -> Seq<(u64, nat)> {
    v.map_values(|p: (MemoryId, usize)| (p.0.0, p.1 as nat))
}

/// Counts the occurrences of each distinct token, in order of first occurrence.
pub fn count_terms(tokens: &Vec<String>) -> (r: Vec<(String, usize)>)
    ensures
        keyed(tally(r@)),
        forall|t: Seq<char>| #[trigger] lookup(tally(r@), t) == occurrences(texts(tokens@), t),
{
    let ghost toks = texts(tokens@);
    let mut r: Vec<(String, usize)> = Vec::new();
    let mut k: usize = 0;
    assert(toks.take(0) =~= Seq::<Seq<char>>::empty());
    while k < tokens.len()
        invariant
            k <= tokens@.len(),
            toks == texts(tokens@),
            keyed(tally(r@)),
            forall|t: Seq<char>| #[trigger] lookup(tally(r@), t) == occurrences(toks.take(k as int), t),
        decreases tokens@.len() - k,
    {
        let tok = tokens[k].as_str();
        assert(toks.take(k + 1) =~= toks.take(k as int).push(tok@));
        let ghost before = tally(r@);
        let mut j: usize = 0;
        while j < r.len() && !str_eq(r[j].0.as_str(), tok)
            invariant
                j <= r@.len(),
                before == tally(r@),
                forall|i: int| 0 <= i < j ==> before[i].0 != tok@,
            decreases r@.len() - j,
        {
            j = j + 1;
        }
        if j < r.len() {
            proof {
                lemma_lookup_at(before, j as int);
                lemma_occurrences_bound(toks.take(k as int), tok@);
            }
            let c = r[j].1;
            r[j].1 = c + 1;
            proof {
                assert(tally(r@) =~= before.update(j as int, (before[j as int].0, (c + 1) as nat)));
                assert forall|t: Seq<char>| #[trigger]
                    lookup(tally(r@), t) == occurrences(toks.take(k + 1), t) by {
                    lemma_lookup_update(before, j as int, (c + 1) as nat, t);
                    lemma_occurrences_push(toks.take(k as int), tok@, t);
                }
            }
        } else {
            proof {
                lemma_lookup_absent(before, tok@);
            }
            r.push((owned(tok), 1));
            proof {
                assert(tally(r@) =~= before.push((tok@, 1nat)));
                assert forall|t: Seq<char>| #[trigger]
                    lookup(tally(r@), t) == occurrences(toks.take(k + 1), t) by {
                    lemma_lookup_push(before, (tok@, 1nat), t);
                    lemma_occurrences_push(toks.take(k as int), tok@, t);
                }
            }
        }
        k = k + 1;
    }
    assert(toks.take(tokens@.len() as int) =~= toks);
    r
}

/// Occurrences of one term in one document.
#[derive(Debug)]
struct TermCount {
    term: String,
    doc: MemoryId,
    count: usize,
}

/// The entries as ((term, document), count) pairs.
spec fn table_view(e: Seq<TermCount>) -> Seq<((Seq<char>, u64), nat)> {
    e.map_values(|x: TermCount| ((x.term@, x.doc.0), x.count as nat))
}

/// How often `t` occurs in document `d` of `docs` (zero for an absent document).
pub open spec fn doc_term_count(docs: Map<u64, Seq<Seq<char>>>, t: Seq<char>, d: u64) -> nat {
    if docs.contains_key(d) {
        occurrences(docs[d], t)
    } else {
        0
    }
}

/// For a set of documents, each a token sequence, how often each term occurs in
/// each document.
pub struct TermTable {
    entries: Vec<TermCount>,
    docs: Ghost<Map<u64, Seq<Seq<char>>>>,
}

impl core::fmt::Debug for TermTable {
    /// Writes the entries through `Formatter::debug_struct`.
    #[verifier::external_body]
    fn fmt(&self, f: &mut core::fmt::Formatter<'_>) -> core::fmt::Result {
        f.debug_struct("TermTable").field("entries", &self.entries).finish()
    }
}

impl TermTable {
    /// The documents the table describes, by identifier.
    pub closed spec fn documents(&self) -> Map<u64, Seq<Seq<char>>> {
        self.docs@
    }

    /// Well-formedness: one entry per (term, document) pair that occurs, holding
    /// its positive count.
    pub closed spec fn wf(&self) -> bool {
        &&& self.docs@.dom().finite()
        &&& keyed(table_view(self.entries@))
        &&& forall|t: Seq<char>, d: u64| #[trigger]
            doc_term_count(self.docs@, t, d) == lookup(table_view(self.entries@), (t, d))
    }

    /// An empty table.
    pub fn new() -> (t: TermTable)
        ensures
            t.wf(),
            t.documents() == Map::<u64, Seq<Seq<char>>>::empty(),
    {
        let t = TermTable { entries: Vec::new(), docs: Ghost(Map::empty()) };
        assert(table_view(t.entries@) =~= Seq::<((Seq<char>, u64), nat)>::empty());
        t
    }

    /// The documents are finitely many.
    pub proof fn lemma_finite(&self)
        requires
            self.wf(),
        ensures
            self.documents().dom().finite(),
    {
    }

    /// Forgets document `id`.
    pub fn remove_doc(&mut self, id: MemoryId)
        requires
            old(self).wf(),
        ensures
            final(self).wf(),
            final(self).documents() == old(self).documents().remove(id.0),
    {
        let ghost old_view = table_view(self.entries@);
        let ghost docs = self.docs@;
        let mut kept: Vec<TermCount> = Vec::new();
        let mut k: usize = 0;
        assert(old_view.take(0) =~= Seq::<((Seq<char>, u64), nat)>::empty());
        while k < self.entries.len()
            invariant
                k <= self.entries@.len(),
                old_view == table_view(self.entries@),
                keyed(old_view),
                keyed(table_view(kept@)),
                forall|key: (Seq<char>, u64)| #[trigger]
                    lookup(table_view(kept@), key) == if key.1 == id.0 {
                        0
                    } else {
                        lookup(old_view.take(k as int), key)
                    },
            decreases self.entries@.len() - k,
        {
            let e = &self.entries[k];
            let ghost x = old_view[k as int];
            assert(x == ((e.term@, e.doc.0), e.count as nat));
            assert(old_view.take(k + 1) =~= old_view.take(k as int).push(x));
            if e.doc.0 != id.0 {
                let ghost kv = table_view(kept@);
                proof {
                    assert forall|i: int| 0 <= i < old_view.take(k as int).len() implies
                        old_view.take(k as int)[i].0 != x.0 by {
                        assert(old_view.take(k as int)[i] == old_view[i]);
                    }
                    lemma_lookup_absent(old_view.take(k as int), x.0);
                    assert forall|i: int| 0 <= i < kv.len() implies kv[i].0 != x.0 by {
                        lemma_lookup_at(kv, i);
                    }
                }
                kept.push(TermCount { term: owned(e.term.as_str()), doc: e.doc, count: e.count });
                proof {
                    assert(table_view(kept@) =~= kv.push(x));
                    assert forall|key: (Seq<char>, u64)| #[trigger]
                        lookup(table_view(kept@), key) == if key.1 == id.0 {
                            0
                        } else {
                            lookup(old_view.take(k + 1), key)
                        } by {
                        lemma_lookup_push(kv, x, key);
                        lemma_lookup_push(old_view.take(k as int), x, key);
                    }
                }
            } else {
                proof {
                    assert forall|key: (Seq<char>, u64)| #[trigger]
                        lookup(table_view(kept@), key) == if key.1 == id.0 {
                            0
                        } else {
                            lookup(old_view.take(k + 1), key)
                        } by {
                        lemma_lookup_push(old_view.take(k as int), x, key);
                    }
                }
            }
            k = k + 1;
        }
        assert(old_view.take(k as int) =~= old_view);
        self.entries = kept;
        self.docs = Ghost(docs.remove(id.0));
        assert forall|t: Seq<char>, d: u64| #[trigger]
            doc_term_count(self.docs@, t, d) == lookup(table_view(self.entries@), (t, d)) by {
            assert(doc_term_count(docs, t, d) == lookup(old_view, (t, d)));
        }
    }

    /// Records document `id`, whose tokens `toks` occur as `counts` says.
    pub fn add_doc(
        &mut self,
        id: MemoryId,
        counts: &Vec<(String, usize)>,
        Ghost(toks): Ghost<Seq<Seq<char>>>,
    )
        requires
            old(self).wf(),
            !old(self).documents().contains_key(id.0),
            keyed(tally(counts@)),
            forall|t: Seq<char>| #[trigger] lookup(tally(counts@), t) == occurrences(toks, t),
        ensures
            final(self).wf(),
            final(self).documents() == old(self).documents().insert(id.0, toks),
    {
        let ghost old_view = table_view(self.entries@);
        let ghost docs = self.docs@;
        let ghost cv = tally(counts@);
        let mut j: usize = 0;
        assert(cv.take(0) =~= Seq::<(Seq<char>, nat)>::empty());
        assert forall|key: (Seq<char>, u64)| #[trigger]
            lookup(table_view(self.entries@), key) == if key.1 == id.0 {
                lookup(cv.take(0), key.0)
            } else {
                lookup(old_view, key)
            } by {
            assert(doc_term_count(docs, key.0, key.1) == lookup(old_view, key));
        }
        while j < counts.len()
            invariant
                j <= counts@.len(),
                cv == tally(counts@),
                keyed(cv),
                docs == self.docs@,
                !docs.contains_key(id.0),
                forall|t: Seq<char>, d: u64| #[trigger]
                    doc_term_count(docs, t, d) == lookup(old_view, (t, d)),
                keyed(table_view(self.entries@)),
                forall|key: (Seq<char>, u64)| #[trigger]
                    lookup(table_view(self.entries@), key) == if key.1 == id.0 {
                        lookup(cv.take(j as int), key.0)
                    } else {
                        lookup(old_view, key)
                    },
            decreases counts@.len() - j,
        {
            let ghost ev = table_view(self.entries@);
            let ghost p = cv[j as int];
            let ghost x = ((p.0, id.0), p.1);
            assert(cv.take(j + 1) =~= cv.take(j as int).push(p));
            proof {
                assert forall|i: int| 0 <= i < cv.take(j as int).len() implies cv.take(
                    j as int,
                )[i].0 != p.0 by {
                    assert(cv.take(j as int)[i] == cv[i]);
                }
                lemma_lookup_absent(cv.take(j as int), p.0);
                assert forall|i: int| 0 <= i < ev.len() implies ev[i].0 != x.0 by {
                    lemma_lookup_at(ev, i);
                }
            }
            self.entries.push(
                TermCount { term: owned(counts[j].0.as_str()), doc: id, count: counts[j].1 },
            );
            proof {
                assert(table_view(self.entries@) =~= ev.push(x));
                assert forall|key: (Seq<char>, u64)| #[trigger]
                    lookup(table_view(self.entries@), key) == if key.1 == id.0 {
                        lookup(cv.take(j + 1), key.0)
                    } else {
                        lookup(old_view, key)
                    } by {
                    lemma_lookup_push(ev, x, key);
                    lemma_lookup_push(cv.take(j as int), p, key.0);
                }
            }
            j = j + 1;
        }
        assert(cv.take(j as int) =~= cv);
        self.docs = Ghost(docs.insert(id.0, toks));
        assert forall|t: Seq<char>, d: u64| #[trigger]
            doc_term_count(self.docs@, t, d) == lookup(table_view(self.entries@), (t, d)) by {
            if d != id.0 {
                assert(doc_term_count(docs, t, d) == lookup(old_view, (t, d)));
            }
        }
    }

    /// How often `term` occurs in document `doc` (zero when either is absent).
    pub fn frequency(&self, term: &str, doc: MemoryId) -> (r: usize)
        requires
            self.wf(),
        ensures
            r == doc_term_count(self.documents(), term@, doc.0),
    {
        let ghost v = table_view(self.entries@);
        let mut k: usize = 0;
        while k < self.entries.len()
            invariant
                k <= self.entries@.len(),
                v == table_view(self.entries@),
                self.wf(),
                forall|i: int| 0 <= i < k ==> v[i].0 != (term@, doc.0),
            decreases self.entries@.len() - k,
        {
            let e = &self.entries[k];
            assert(v[k as int] == ((e.term@, e.doc.0), e.count as nat));
            if e.doc.0 == doc.0 && str_eq(e.term.as_str(), term) {
                proof {
                    lemma_lookup_at(v, k as int);
                    assert(doc_term_count(self.docs@, term@, doc.0) == lookup(v, (term@, doc.0)));
                }
                return e.count;
            }
            k = k + 1;
        }
        proof {
            lemma_lookup_absent(v, (term@, doc.0));
            assert(doc_term_count(self.docs@, term@, doc.0) == lookup(v, (term@, doc.0)));
        }
        0
    }

    /// The documents containing `term`, each with its number of occurrences.
    pub fn postings(&self, term: &str) -> (r: Vec<(MemoryId, usize)>)
        requires
            self.wf(),
        ensures
            keyed(per_doc(r@)),
            forall|d: u64| #[trigger]
                lookup(per_doc(r@), d) == doc_term_count(self.documents(), term@, d),
    {
        let ghost v = table_view(self.entries@);
        let mut r: Vec<(MemoryId, usize)> = Vec::new();
        let mut k: usize = 0;
        assert(v.take(0) =~= Seq::<((Seq<char>, u64), nat)>::empty());
        while k < self.entries.len()
            invariant
                k <= self.entries@.len(),
                v == table_view(self.entries@),
                keyed(v),
                keyed(per_doc(r@)),
                forall|d: u64| #[trigger]
                    lookup(per_doc(r@), d) == lookup(v.take(k as int), (term@, d)),
            decreases self.entries@.len() - k,
        {
            let e = &self.entries[k];
            let ghost x = v[k as int];
            assert(x == ((e.term@, e.doc.0), e.count as nat));
            assert(v.take(k + 1) =~= v.take(k as int).push(x));
            let ghost rv = per_doc(r@);
            if str_eq(e.term.as_str(), term) {
                proof {
                    assert forall|i: int| 0 <= i < v.take(k as int).len() implies v.take(
                        k as int,
                    )[i].0 != x.0 by {
                        assert(v.take(k as int)[i] == v[i]);
                    }
                    lemma_lookup_absent(v.take(k as int), x.0);
                    assert forall|i: int| 0 <= i < rv.len() implies rv[i].0 != e.doc.0 by {
                        lemma_lookup_at(rv, i);
                    }
                }
                r.push((e.doc, e.count));
                proof {
                    assert(per_doc(r@) =~= rv.push((e.doc.0, e.count as nat)));
                    assert forall|d: u64| #[trigger]
                        lookup(per_doc(r@), d) == lookup(v.take(k + 1), (term@, d)) by {
                        lemma_lookup_push(rv, (e.doc.0, e.count as nat), d);
                        lemma_lookup_push(v.take(k as int), x, (term@, d));
                    }
                }
            } else {
                proof {
                    assert forall|d: u64| #[trigger]
                        lookup(per_doc(r@), d) == lookup(v.take(k + 1), (term@, d)) by {
                        lemma_lookup_push(v.take(k as int), x, (term@, d));
                    }
                }
            }
            k = k + 1;
        }
        assert(v.take(k as int) =~= v);
        assert forall|d: u64| #[trigger]
            lookup(per_doc(r@), d) == doc_term_count(self.documents(), term@, d) by {
            assert(doc_term_count(self.docs@, term@, d) == lookup(v, (term@, d)));
        }
        r
    }

    /// The terms of document `doc`, each with its number of occurrences there.
    pub fn terms_of(&self, doc: MemoryId) -> (r: Vec<(String, usize)>)
        requires
            self.wf(),
        ensures
            keyed(tally(r@)),
            forall|t: Seq<char>| #[trigger]
                lookup(tally(r@), t) == doc_term_count(self.documents(), t, doc.0),
    {
        let ghost v = table_view(self.entries@);
        let mut r: Vec<(String, usize)> = Vec::new();
        let mut k: usize = 0;
        assert(v.take(0) =~= Seq::<((Seq<char>, u64), nat)>::empty());
        while k < self.entries.len()
            invariant
                k <= self.entries@.len(),
                v == table_view(self.entries@),
                keyed(v),
                keyed(tally(r@)),
                forall|t: Seq<char>| #[trigger]
                    lookup(tally(r@), t) == lookup(v.take(k as int), (t, doc.0)),
            decreases self.entries@.len() - k,
        {
            let e = &self.entries[k];
            let ghost x = v[k as int];
            assert(x == ((e.term@, e.doc.0), e.count as nat));
            assert(v.take(k + 1) =~= v.take(k as int).push(x));
            let ghost rv = tally(r@);
            if e.doc.0 == doc.0 {
                proof {
                    assert forall|i: int| 0 <= i < v.take(k as int).len() implies v.take(
                        k as int,
                    )[i].0 != x.0 by {
                        assert(v.take(k as int)[i] == v[i]);
                    }
                    lemma_lookup_absent(v.take(k as int), x.0);
                    assert forall|i: int| 0 <= i < rv.len() implies rv[i].0 != e.term@ by {
                        lemma_lookup_at(rv, i);
                    }
                }
                r.push((owned(e.term.as_str()), e.count));
                proof {
                    assert(tally(r@) =~= rv.push((e.term@, e.count as nat)));
                    assert forall|t: Seq<char>| #[trigger]
                        lookup(tally(r@), t) == lookup(v.take(k + 1), (t, doc.0)) by {
                        lemma_lookup_push(rv, (e.term@, e.count as nat), t);
                        lemma_lookup_push(v.take(k as int), x, (t, doc.0));
                    }
                }
            } else {
                proof {
                    assert forall|t: Seq<char>| #[trigger]
                        lookup(tally(r@), t) == lookup(v.take(k + 1), (t, doc.0)) by {
                        lemma_lookup_push(v.take(k as int), x, (t, doc.0));
                    }
                }
            }
            k = k + 1;
        }
        assert(v.take(k as int) =~= v);
        assert forall|t: Seq<char>| #[trigger]
            lookup(tally(r@), t) == doc_term_count(self.documents(), t, doc.0) by {
            assert(doc_term_count(self.docs@, t, doc.0) == lookup(v, (t, doc.0)));
        }
        r
    }
}

} // verus!
