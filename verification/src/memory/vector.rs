//! Vector index: the term statistics that TF-IDF cosine similarity reads.
use crate::memory::bm25::{Bm25Index, doc_len, tokens_of};
use crate::memory::terms::{
    TermTable, count_terms, doc_term_count, keyed, lemma_keyed_len, lemma_lookup_absent,
    lemma_lookup_at, lemma_lookup_push, lemma_lookup_remove, lemma_lookup_update, lookup,
    occurrences, per_doc, tally,
};
use crate::memory::types::{MemoryId, texts};
use crate::text::{owned, str_eq};
use vstd::prelude::*;

verus! {

/// The documents of `docs` in which `t` occurs.
pub open spec fn containing(docs: Map<u64, Seq<Seq<char>>>, t: Seq<char>) -> Set<u64> {
    docs.dom().filter(|d: u64| occurrences(docs[d], t) > 0)
}

/// Adding a new document adds it to the documents containing each of its terms.
proof fn lemma_containing_insert(
    docs: Map<u64, Seq<Seq<char>>>,
    id: u64,
    toks: Seq<Seq<char>>,
    t: Seq<char>,
)
    requires
        docs.dom().finite(),
        !docs.contains_key(id),
    ensures
        containing(docs.insert(id, toks), t).len() == containing(docs, t).len() + if occurrences(
            toks,
            t,
        ) > 0 {
            1nat
        } else {
            0nat
        },
{
    let before = containing(docs, t);
    let after = containing(docs.insert(id, toks), t);
    docs.dom().lemma_len_filter(|d: u64| occurrences(docs[d], t) > 0);
    assert(!before.contains(id));
    if occurrences(toks, t) > 0 {
        assert(after =~= before.insert(id));
    } else {
        assert(after =~= before);
    }
}

/// Removing a document removes it from the documents containing each of its
/// terms.
proof fn lemma_containing_remove(docs: Map<u64, Seq<Seq<char>>>, id: u64, t: Seq<char>)
    requires
        docs.dom().finite(),
        docs.contains_key(id),
    ensures
        containing(docs.remove(id), t).len() + (if occurrences(docs[id], t) > 0 {
            1nat
        } else {
            0nat
        }) == containing(docs, t).len(),
{
    let before = containing(docs, t);
    let after = containing(docs.remove(id), t);
    docs.dom().lemma_len_filter(|d: u64| occurrences(docs[d], t) > 0);
    if occurrences(docs[id], t) > 0 {
        assert(after =~= before.remove(id));
    } else {
        assert(after =~= before);
    }
}

/// Sparse TF-IDF vector index: per document its token count and term
/// frequencies, and per term the number of documents containing it.
#[derive(Debug)]
pub struct SparseVectorIndex {
    doc_tfs: TermTable,
    doc_token_counts: Vec<(MemoryId, usize)>,
    term_doc_counts: Vec<(String, usize)>,
}

impl SparseVectorIndex {
    /// The indexed documents, each as its sequence of tokens.
    pub closed spec fn documents(&self) -> Map<u64, Seq<Seq<char>>> {
        self.doc_tfs.documents()
    }

    /// Well-formedness: the statistics describe the documents, and no document is
    /// empty.
    pub closed spec fn wf(&self) -> bool {
        &&& self.doc_tfs.wf()
        &&& keyed(per_doc(self.doc_token_counts@))
        &&& forall|d: u64| #[trigger]
            doc_len(self.documents(), d) == lookup(per_doc(self.doc_token_counts@), d)
        &&& forall|d: u64| #[trigger]
            self.documents().contains_key(d) ==> self.documents()[d].len() > 0
        &&& keyed(tally(self.term_doc_counts@))
        &&& forall|t: Seq<char>| #[trigger]
            lookup(tally(self.term_doc_counts@), t) == containing(self.documents(), t).len()
    }

    /// Creates an empty index.
    pub fn new() -> (ix: SparseVectorIndex)
        ensures
            ix.wf(),
            ix.documents() == Map::<u64, Seq<Seq<char>>>::empty(),
    {
        let ix = SparseVectorIndex {
            doc_tfs: TermTable::new(),
            doc_token_counts: Vec::new(),
            term_doc_counts: Vec::new(),
        };
        assert(per_doc(ix.doc_token_counts@) =~= Seq::<(u64, nat)>::empty());
        assert(tally(ix.term_doc_counts@) =~= Seq::<(Seq<char>, nat)>::empty());
        assert forall|t: Seq<char>| #[trigger]
            lookup(tally(ix.term_doc_counts@), t) == containing(ix.documents(), t).len() by {
            assert(containing(ix.documents(), t) =~= Set::<u64>::empty());
        }
        ix
    }

    /// The indexed documents are finitely many.
    pub proof fn lemma_finite(&self)
        requires
            self.wf(),
        ensures
            self.documents().dom().finite(),
    {
        self.doc_tfs.lemma_finite();
    }

    /// The number of indexed documents.
    pub fn document_count(&self) -> (n: usize)
        requires
            self.wf(),
        ensures
            n == self.documents().dom().len(),
    {
        proof {
            self.doc_tfs.lemma_finite();
            let lv = per_doc(self.doc_token_counts@);
            assert forall|d: u64| self.documents().dom().contains(d) <==> lookup(lv, d) > 0 by {
                assert(doc_len(self.documents(), d) == lookup(lv, d));
            }
            lemma_keyed_len(lv, self.documents().dom());
        }
        self.doc_token_counts.len()
    }

    /// Removes document `id` from the index; an unknown document changes nothing.
    pub fn remove(&mut self, id: MemoryId)
        requires
            old(self).wf(),
        ensures
            final(self).wf(),
            final(self).documents() == old(self).documents().remove(id.0),
    {
        let ghost lv = per_doc(self.doc_token_counts@);
        let ghost docs = self.documents();
        let mut j: usize = 0;
        while j < self.doc_token_counts.len() && self.doc_token_counts[j].0.0 != id.0
            invariant
                j <= self.doc_token_counts@.len(),
                lv == per_doc(self.doc_token_counts@),
                forall|i: int| 0 <= i < j ==> lv[i].0 != id.0,
            decreases self.doc_token_counts@.len() - j,
        {
            j = j + 1;
        }
        if j == self.doc_token_counts.len() {
            proof {
                lemma_lookup_absent(lv, id.0);
                assert(doc_len(docs, id.0) == lookup(lv, id.0));
                assert(docs.remove(id.0) =~= docs);
            }
            return;
        }
        proof {
            lemma_lookup_at(lv, j as int);
            assert(doc_len(docs, id.0) == lookup(lv, id.0));
            self.doc_tfs.lemma_finite();
        }
        let terms = self.doc_tfs.terms_of(id);
        self.doc_tfs.remove_doc(id);
        self.doc_token_counts.remove(j);
        assert(per_doc(self.doc_token_counts@) =~= lv.remove(j as int));
        let ghost tv = tally(terms@);
        let mut k: usize = 0;
        assert(tv.take(0) =~= Seq::<(Seq<char>, nat)>::empty());
        while k < terms.len()
            invariant
                k <= terms@.len(),
                tv == tally(terms@),
                keyed(tv),
                forall|t: Seq<char>| #[trigger] lookup(tv, t) == doc_term_count(docs, t, id.0),
                docs.dom().finite(),
                docs.contains_key(id.0),
                self.doc_tfs.wf(),
                self.documents() == docs.remove(id.0),
                j < lv.len(),
                lv[j as int].0 == id.0,
                keyed(lv),
                forall|d: u64| #[trigger] doc_len(docs, d) == lookup(lv, d),
                forall|d: u64| #[trigger] docs.contains_key(d) ==> docs[d].len() > 0,
                per_doc(self.doc_token_counts@) == lv.remove(j as int),
                keyed(tally(self.term_doc_counts@)),
                forall|t: Seq<char>| #[trigger]
                    lookup(tally(self.term_doc_counts@), t) + (if lookup(tv.take(k as int), t)
                        > 0 {
                        1nat
                    } else {
                        0nat
                    }) == containing(docs, t).len(),
            decreases terms@.len() - k,
        {
            let term = terms[k].0.as_str();
            let ghost p = tv[k as int];
            assert(p.0 == term@);
            assert(tv.take(k + 1) =~= tv.take(k as int).push(p));
            proof {
                assert forall|i: int| 0 <= i < tv.take(k as int).len() implies tv.take(
                    k as int,
                )[i].0 != p.0 by {
                    assert(tv.take(k as int)[i] == tv[i]);
                }
                lemma_lookup_absent(tv.take(k as int), p.0);
                lemma_lookup_at(tv, k as int);
            }
            let ghost cv = tally(self.term_doc_counts@);
            let mut i: usize = 0;
            while i < self.term_doc_counts.len() && !str_eq(
                self.term_doc_counts[i].0.as_str(),
                term,
            )
                invariant
                    i <= self.term_doc_counts@.len(),
                    cv == tally(self.term_doc_counts@),
                    forall|a: int| 0 <= a < i ==> cv[a].0 != term@,
                decreases self.term_doc_counts@.len() - i,
            {
                i = i + 1;
            }
            if i == self.term_doc_counts.len() {
                proof {
                    lemma_lookup_absent(cv, term@);
                    assert(lookup(tally(self.term_doc_counts@), term@) == 0);
                    assert(lookup(tv, term@) == doc_term_count(docs, term@, id.0));
                    let s = containing(docs, term@);
                    docs.dom().lemma_len_filter(|d: u64| occurrences(docs[d], term@) > 0);
                    assert(s.contains(id.0));
                    assert(s.remove(id.0).len() + 1 == s.len());
                    assert(false);
                }
            } else {
                let c = self.term_doc_counts[i].1;
                proof {
                    lemma_lookup_at(cv, i as int);
                }
                let left = c.saturating_sub(1);
                if left == 0 {
                    self.term_doc_counts.remove(i);
                    proof {
                        assert(tally(self.term_doc_counts@) =~= cv.remove(i as int));
                        let nv = tally(self.term_doc_counts@);
                        assert forall|a: int, b: int| 0 <= a < b < nv.len() implies nv[a].0
                            != nv[b].0 by {
                            let a0 = if a < i { a } else { a + 1 };
                            let b0 = if b < i { b } else { b + 1 };
                            assert(nv[a] == cv[a0]);
                            assert(nv[b] == cv[b0]);
                        }
                        assert forall|a: int| 0 <= a < nv.len() implies nv[a].1 > 0 by {
                            let a0 = if a < i { a } else { a + 1 };
                            assert(nv[a] == cv[a0]);
                        }
                        assert forall|t: Seq<char>| #[trigger]
                            lookup(tally(self.term_doc_counts@), t) + (if lookup(
                                tv.take(k + 1),
                                t,
                            ) > 0 {
                                1nat
                            } else {
                                0nat
                            }) == containing(docs, t).len() by {
                            lemma_lookup_remove(cv, i as int, t);
                            lemma_lookup_push(tv.take(k as int), p, t);
                        }
                    }
                } else {
                    self.term_doc_counts[i].1 = left;
                    proof {
                        assert(tally(self.term_doc_counts@) =~= cv.update(
                            i as int,
                            (cv[i as int].0, left as nat),
                        ));
                        assert forall|t: Seq<char>| #[trigger]
                            lookup(tally(self.term_doc_counts@), t) + (if lookup(
                                tv.take(k + 1),
                                t,
                            ) > 0 {
                                1nat
                            } else {
                                0nat
                            }) == containing(docs, t).len() by {
                            lemma_lookup_update(cv, i as int, left as nat, t);
                            lemma_lookup_push(tv.take(k as int), p, t);
                        }
                    }
                }
            }
            k = k + 1;
        }
        assert(tv.take(k as int) =~= tv);
        proof {
            let nv = per_doc(self.doc_token_counts@);
            assert forall|a: int, b: int| 0 <= a < b < nv.len() implies nv[a].0 != nv[b].0 by {
                let a0 = if a < j { a } else { a + 1 };
                let b0 = if b < j { b } else { b + 1 };
                assert(nv[a] == lv[a0]);
                assert(nv[b] == lv[b0]);
            }
            assert forall|a: int| 0 <= a < nv.len() implies nv[a].1 > 0 by {
                let a0 = if a < j { a } else { a + 1 };
                assert(nv[a] == lv[a0]);
            }
            assert forall|d: u64| #[trigger]
                doc_len(self.documents(), d) == lookup(per_doc(self.doc_token_counts@), d) by {
                lemma_lookup_remove(lv, j as int, d);
                assert(doc_len(docs, d) == lookup(lv, d));
            }
            assert forall|d: u64| #[trigger]
                self.documents().contains_key(d) implies self.documents()[d].len() > 0 by {
                assert(docs.contains_key(d));
            }
            assert forall|t: Seq<char>| #[trigger]
                lookup(tally(self.term_doc_counts@), t) == containing(self.documents(), t).len() by {
                lemma_containing_remove(docs, id.0, t);
                assert(lookup(tv, t) == doc_term_count(docs, t, id.0));
            }
        }
    }

    /// Indexes or re-indexes document `id` with the tokens of `text`. A text
    /// without tokens leaves the document out of the index.
    pub fn index(&mut self, id: MemoryId, text: &str)
        requires
            old(self).wf(),
            old(self).documents().dom().len() < usize::MAX,
        ensures
            final(self).wf(),
            final(self).documents() == if tokens_of(text@).len() == 0 {
                old(self).documents().remove(id.0)
            } else {
                old(self).documents().insert(id.0, tokens_of(text@))
            },
    {
        proof {
            self.doc_tfs.lemma_finite();
        }
        self.remove(id);
        let tokens = Bm25Index::tokenize(text);
        let count = tokens.len();
        if count == 0 {
            return;
        }
        let tfs = count_terms(&tokens);
        let ghost toks = texts(tokens@);
        let ghost docs = self.documents();
        let ghost tv = tally(tfs@);
        proof {
            self.doc_tfs.lemma_finite();
            assert(docs.dom().len() < usize::MAX) by {
                if old(self).documents().contains_key(id.0) {
                    assert(docs.dom() =~= old(self).documents().dom().remove(id.0));
                } else {
                    assert(docs.dom() =~= old(self).documents().dom());
                }
            }
        }
        let ghost lv = per_doc(self.doc_token_counts@);
        let mut k: usize = 0;
        assert(tv.take(0) =~= Seq::<(Seq<char>, nat)>::empty());
        while k < tfs.len()
            invariant
                k <= tfs@.len(),
                tv == tally(tfs@),
                keyed(tv),
                forall|t: Seq<char>| #[trigger] lookup(tv, t) == occurrences(toks, t),
                docs == self.documents(),
                self.doc_tfs.wf(),
                !docs.contains_key(id.0),
                lv == per_doc(self.doc_token_counts@),
                keyed(lv),
                forall|d: u64| #[trigger] doc_len(docs, d) == lookup(lv, d),
                forall|d: u64| #[trigger] docs.contains_key(d) ==> docs[d].len() > 0,
                docs.dom().finite(),
                docs.dom().len() < usize::MAX,
                keyed(tally(self.term_doc_counts@)),
                forall|t: Seq<char>| #[trigger]
                    lookup(tally(self.term_doc_counts@), t) == containing(docs, t).len() + (if lookup(
                        tv.take(k as int),
                        t,
                    ) > 0 {
                        1nat
                    } else {
                        0nat
                    }),
            decreases tfs@.len() - k,
        {
            let term = tfs[k].0.as_str();
            let ghost p = tv[k as int];
            assert(p.0 == term@);
            assert(tv.take(k + 1) =~= tv.take(k as int).push(p));
            proof {
                assert forall|i: int| 0 <= i < tv.take(k as int).len() implies tv.take(
                    k as int,
                )[i].0 != p.0 by {
                    assert(tv.take(k as int)[i] == tv[i]);
                }
                lemma_lookup_absent(tv.take(k as int), p.0);
            }
            let ghost cv = tally(self.term_doc_counts@);
            let mut i: usize = 0;
            while i < self.term_doc_counts.len() && !str_eq(
                self.term_doc_counts[i].0.as_str(),
                term,
            )
                invariant
                    i <= self.term_doc_counts@.len(),
                    cv == tally(self.term_doc_counts@),
                    forall|a: int| 0 <= a < i ==> cv[a].0 != term@,
                decreases self.term_doc_counts@.len() - i,
            {
                i = i + 1;
            }
            if i == self.term_doc_counts.len() {
                proof {
                    lemma_lookup_absent(cv, term@);
                }
                self.term_doc_counts.push((owned(term), 1));
                proof {
                    assert(tally(self.term_doc_counts@) =~= cv.push((term@, 1nat)));
                    assert forall|a: int| 0 <= a < cv.len() implies cv[a].0 != term@ by {}
                    assert forall|t: Seq<char>| #[trigger]
                        lookup(tally(self.term_doc_counts@), t) == containing(docs, t).len() + (if lookup(
                            tv.take(k + 1),
                            t,
                        ) > 0 {
                            1nat
                        } else {
                            0nat
                        }) by {
                        lemma_lookup_push(cv, (term@, 1nat), t);
                        lemma_lookup_push(tv.take(k as int), p, t);
                    }
                }
            } else {
                let c = self.term_doc_counts[i].1;
                proof {
                    lemma_lookup_at(cv, i as int);
                    docs.dom().lemma_len_filter(|d: u64| occurrences(docs[d], term@) > 0);
                }
                self.term_doc_counts[i].1 = c + 1;
                proof {
                    assert(tally(self.term_doc_counts@) =~= cv.update(
                        i as int,
                        (cv[i as int].0, (c + 1) as nat),
                    ));
                    assert forall|t: Seq<char>| #[trigger]
                        lookup(tally(self.term_doc_counts@), t) == containing(docs, t).len() + (if lookup(
                            tv.take(k + 1),
                            t,
                        ) > 0 {
                            1nat
                        } else {
                            0nat
                        }) by {
                        lemma_lookup_update(cv, i as int, (c + 1) as nat, t);
                        lemma_lookup_push(tv.take(k as int), p, t);
                    }
                }
            }
            k = k + 1;
        }
        assert(tv.take(k as int) =~= tv);
        proof {
            assert(doc_len(docs, id.0) == lookup(lv, id.0));
            assert forall|i: int| 0 <= i < lv.len() implies lv[i].0 != id.0 by {
                lemma_lookup_at(lv, i);
            }
        }
        self.doc_token_counts.push((id, count));
        assert(per_doc(self.doc_token_counts@) =~= lv.push((id.0, count as nat)));
        self.doc_tfs.add_doc(id, &tfs, Ghost(toks));
        proof {
            assert forall|d: u64| #[trigger]
                doc_len(self.documents(), d) == lookup(per_doc(self.doc_token_counts@), d) by {
                lemma_lookup_push(lv, (id.0, count as nat), d);
                assert(doc_len(docs, d) == lookup(lv, d));
            }
            assert forall|d: u64| #[trigger]
                self.documents().contains_key(d) implies self.documents()[d].len() > 0 by {
                if d != id.0 {
                    assert(docs.contains_key(d));
                }
            }
            assert forall|t: Seq<char>| #[trigger]
                lookup(tally(self.term_doc_counts@), t) == containing(self.documents(), t).len() by {
                lemma_containing_insert(docs, id.0, toks, t);
            }
        }
    }

    /// The token count of document `doc`, when it is indexed.
    pub fn doc_token_count(&self, doc: MemoryId) -> (r: Option<usize>)
        requires
            self.wf(),
        ensures
            self.documents().contains_key(doc.0) ==> r == Some(
                self.documents()[doc.0].len() as usize,
            ),
            !self.documents().contains_key(doc.0) ==> r is None,
    {
        let ghost lv = per_doc(self.doc_token_counts@);
        let mut j: usize = 0;
        while j < self.doc_token_counts.len()
            invariant
                j <= self.doc_token_counts@.len(),
                lv == per_doc(self.doc_token_counts@),
                self.wf(),
                forall|i: int| 0 <= i < j ==> lv[i].0 != doc.0,
            decreases self.doc_token_counts@.len() - j,
        {
            if self.doc_token_counts[j].0.0 == doc.0 {
                proof {
                    lemma_lookup_at(lv, j as int);
                    assert(doc_len(self.documents(), doc.0) == lookup(lv, doc.0));
                }
                return Some(self.doc_token_counts[j].1);
            }
            j = j + 1;
        }
        proof {
            lemma_lookup_absent(lv, doc.0);
            assert(doc_len(self.documents(), doc.0) == lookup(lv, doc.0));
        }
        None
    }

    /// The number of documents containing `term`.
    pub fn term_doc_count(&self, term: &str) -> (n: usize)
        requires
            self.wf(),
        ensures
            n == containing(self.documents(), term@).len(),
    {
        let ghost cv = tally(self.term_doc_counts@);
        let mut i: usize = 0;
        while i < self.term_doc_counts.len()
            invariant
                i <= self.term_doc_counts@.len(),
                cv == tally(self.term_doc_counts@),
                self.wf(),
                forall|a: int| 0 <= a < i ==> cv[a].0 != term@,
            decreases self.term_doc_counts@.len() - i,
        {
            if str_eq(self.term_doc_counts[i].0.as_str(), term) {
                proof {
                    lemma_lookup_at(cv, i as int);
                }
                return self.term_doc_counts[i].1;
            }
            i = i + 1;
        }
        proof {
            lemma_lookup_absent(cv, term@);
        }
        0
    }

    /// The identifiers of the indexed documents, each once.
    pub fn document_ids(&self) -> (r: Vec<MemoryId>)
        requires
            self.wf(),
        ensures
            forall|a: int, b: int| 0 <= a < b < r@.len() ==> r@[a] != r@[b],
            forall|d: u64| #![trigger self.documents().contains_key(d)]
                self.documents().contains_key(d) <==> exists|a: int|
                    0 <= a < r@.len() && r@[a].0 == d,
    {
        let ghost lv = per_doc(self.doc_token_counts@);
        let mut r: Vec<MemoryId> = Vec::new();
        let mut j: usize = 0;
        while j < self.doc_token_counts.len()
            invariant
                j <= self.doc_token_counts@.len(),
                lv == per_doc(self.doc_token_counts@),
                keyed(lv),
                r@.len() == j,
                forall|a: int| 0 <= a < j ==> r@[a].0 == lv[a].0,
            decreases self.doc_token_counts@.len() - j,
        {
            r.push(self.doc_token_counts[j].0);
            j = j + 1;
        }
        proof {
            assert forall|a: int, b: int| 0 <= a < b < r@.len() implies r@[a] != r@[b] by {
                assert(lv[a].0 != lv[b].0);
            }
            assert forall|d: u64| #![trigger self.documents().contains_key(d)]
                self.documents().contains_key(d) <==> exists|a: int|
                    0 <= a < r@.len() && r@[a].0 == d by {
                assert(doc_len(self.documents(), d) == lookup(lv, d));
                if self.documents().contains_key(d) {
                    if forall|a: int| 0 <= a < lv.len() ==> lv[a].0 != d {
                        lemma_lookup_absent(lv, d);
                    }
                    let a = choose|a: int| 0 <= a < lv.len() && lv[a].0 == d;
                    assert(r@[a].0 == d);
                }
                if exists|a: int| 0 <= a < r@.len() && r@[a].0 == d {
                    let a = choose|a: int| 0 <= a < r@.len() && r@[a].0 == d;
                    lemma_lookup_at(lv, a);
                }
            }
        }
        r
    }

    /// The terms of document `doc`, each with its number of occurrences there.
    pub fn terms_of(&self, doc: MemoryId) -> (r: Vec<(String, usize)>)
        requires
            self.wf(),
        ensures
            keyed(tally(r@)),
            forall|t: Seq<char>| #[trigger]
                lookup(tally(r@), t) == doc_term_count(self.documents(), t, doc.0),
    {
        self.doc_tfs.terms_of(doc)
    }
}

} // verus!
