//! Keyword index: tokenization and the term statistics that BM25 ranking reads.
use crate::memory::terms::{
    TermTable, doc_term_count, keyed, occurrences, lemma_keyed_len, lemma_lookup_absent, lemma_lookup_at,
    lemma_lookup_push, lemma_lookup_remove, lemma_total_remove, lookup, per_doc, total,
};
use crate::memory::types::{MemoryId, texts};
use crate::text::{all_ascii, ascii_lower_char, chars_of, lowercase, string_from_chars, to_lower};
use vstd::prelude::*;

verus! {

/// Whether a character is alphabetic or numeric in the Unicode sense.
pub uninterp spec fn is_alnum(c: char) -> bool;

/// `char::is_alphanumeric`: the Unicode `Alphabetic` or `Numeric` property. Among
/// ASCII characters exactly the digits and the Latin letters have it.
#[verifier::external_body]
pub(crate) fn char_is_alphanumeric(c: char) -> (r: bool)
    ensures
        r == is_alnum(c),
        (c as u32) < 128 ==> (r <==> (('0' as u32 <= c as u32 && c as u32 <= '9' as u32) || (
        'a' as u32 <= c as u32 && c as u32 <= 'z' as u32) || ('A' as u32 <= c as u32 && c as u32
            <= 'Z' as u32))),
{
    c.is_alphanumeric()
}

/// Whether `c` belongs to a word: among ASCII characters exactly the digits and the
/// Latin letters; beyond ASCII, the Unicode alphabetic and numeric characters.
pub open spec fn word_char(c: char) -> bool {
    if (c as u32) < 128 {
        ||| ('0' as u32 <= c as u32 && c as u32 <= '9' as u32)
        ||| ('a' as u32 <= c as u32 && c as u32 <= 'z' as u32)
        ||| ('A' as u32 <= c as u32 && c as u32 <= 'Z' as u32)
    } else {
        is_alnum(c)
    }
}

/// A word in lower case: ASCII words have `A`..`Z` folded to `a`..`z`; other words
/// are lowercased in the Unicode sense.
pub open spec fn fold_word(w: Seq<char>) -> Seq<char> {
    if all_ascii(w) {
        w.map_values(|c: char| ascii_lower_char(c))
    } else {
        lowercase(w)
    }
}

/// Reading `s` from the left: the finished runs of alphanumeric characters and
/// the run still open at the end.
pub open spec fn scan_runs(s: Seq<char>) -> (Seq<Seq<char>>, Seq<char>)
    decreases s.len(),
{
    if s.len() == 0 {
        (Seq::empty(), Seq::empty())
    } else {
        let (done, open) = scan_runs(s.drop_last());
        if word_char(s.last()) {
            (done, open.push(s.last()))
        } else if open.len() > 0 {
            (done.push(open), Seq::empty())
        } else {
            (done, Seq::empty())
        }
    }
}

/// The maximal runs of alphanumeric characters of `s`, in order.
pub open spec fn alnum_runs(s: Seq<char>) -> Seq<Seq<char>> {
    let (done, open) = scan_runs(s);
    if open.len() > 0 {
        done.push(open)
    } else {
        done
    }
}

/// The tokens of a text: its maximal alphanumeric runs, lowercased.
pub open spec fn tokens_of(s: Seq<char>) -> Seq<Seq<char>> {
    alnum_runs(s).map_values(|w: Seq<char>| fold_word(w))
}

/// Scanning never produces more runs and open characters than it read.
proof fn lemma_scan_runs_bound(s: Seq<char>)
    ensures
        scan_runs(s).0.len() + scan_runs(s).1.len() <= s.len(),
    decreases s.len(),
{
    if s.len() > 0 {
        lemma_scan_runs_bound(s.drop_last());
    }
}

/// Scanning on from a point where no word is open: the runs found before are
/// kept and the rest is scanned as if from the start.
proof fn lemma_scan_append(x: Seq<char>, b: Seq<char>)
    requires
        scan_runs(x).1.len() == 0,
    ensures
        scan_runs(x + b) == (scan_runs(x).0 + scan_runs(b).0, scan_runs(b).1),
    decreases b.len(),
{
    if b.len() == 0 {
        assert(x + b =~= x);
        assert(scan_runs(x).0 + scan_runs(b).0 =~= scan_runs(x).0);
        assert(scan_runs(x).1 =~= scan_runs(b).1);
    } else {
        lemma_scan_append(x, b.drop_last());
        assert((x + b).drop_last() =~= x + b.drop_last());
        assert((x + b).last() == b.last());
        let d = scan_runs(x).0;
        let (d1, o1) = scan_runs(b.drop_last());
        if word_char(b.last()) {
        } else if o1.len() > 0 {
            assert((d + d1).push(o1) =~= d + d1.push(o1));
        } else {
        }
    }
}

/// Tokens of two texts joined by a space are the tokens of the first followed by
/// those of the second: the space ends any word.
pub proof fn lemma_tokens_join(a: Seq<char>, b: Seq<char>)
    ensures
        tokens_of(a + " "@ + b) == tokens_of(a) + tokens_of(b),
{
    reveal_strlit(" ");
    let x = a + " "@;
    assert(x =~= a.push(' '));
    assert(x.drop_last() =~= a);
    assert(!word_char(' '));
    assert(scan_runs(x).0 == alnum_runs(a));
    assert(scan_runs(x).1.len() == 0);
    lemma_scan_append(x, b);
    assert(a + " "@ + b == x + b);
    let (db, ob) = scan_runs(b);
    if ob.len() > 0 {
        assert((alnum_runs(a) + db).push(ob) =~= alnum_runs(a) + db.push(ob));
    }
    assert(alnum_runs(x + b) =~= alnum_runs(a) + alnum_runs(b));
    assert((alnum_runs(a) + alnum_runs(b)).map_values(|w: Seq<char>| fold_word(w)) =~= alnum_runs(
        a,
    ).map_values(|w: Seq<char>| fold_word(w)) + alnum_runs(b).map_values(|w: Seq<char>| fold_word(w)));
}

/// A text has at most as many tokens as characters.
pub proof fn lemma_tokens_bound(s: Seq<char>)
    ensures
        tokens_of(s).len() <= s.len(),
{
    lemma_scan_runs_bound(s);
}

/// Whether document `d` of `docs` contains one of `tokens`.
pub open spec fn shares_token(docs: Map<u64, Seq<Seq<char>>>, tokens: Seq<Seq<char>>, d: u64) -> bool {
    exists|i: int| 0 <= i < tokens.len() && #[trigger] doc_term_count(docs, tokens[i], d) > 0
}

/// Whether identifier `d` occurs in `ids`.
pub open spec fn lists(ids: Seq<MemoryId>, d: u64) -> bool {
    exists|a: int| 0 <= a < ids.len() && #[trigger] ids[a].0 == d
}

/// Whether `id` occurs in `ids`.
fn contains_id(ids: &Vec<MemoryId>, id: MemoryId) -> (r: bool)
    ensures
        r == lists(ids@, id.0),
{
    let mut i: usize = 0;
    while i < ids.len()
        invariant
            i <= ids@.len(),
            forall|a: int| 0 <= a < i ==> ids@[a].0 != id.0,
        decreases ids@.len() - i,
    {
        if ids[i].0 == id.0 {
            return true;
        }
        i = i + 1;
    }
    false
}

/// The number of tokens of document `d` (zero when it is absent).
pub open spec fn doc_len(docs: Map<u64, Seq<Seq<char>>>, d: u64) -> nat {
    if docs.contains_key(d) {
        docs[d].len()
    } else {
        0
    }
}

/// After a text is indexed under `id`, the frequency the index reports for a
/// term in that document is the term's number of occurrences among the text's
/// tokens, and other documents keep their frequencies.
pub proof fn law_frequency_after_index(
    docs: Map<u64, Seq<Seq<char>>>,
    id: u64,
    text: Seq<char>,
    t: Seq<char>,
    other: u64,
)
    requires
        other != id,
    ensures
        doc_term_count(
            if tokens_of(text).len() == 0 {
                docs.remove(id)
            } else {
                docs.insert(id, tokens_of(text))
            },
            t,
            id,
        ) == occurrences(tokens_of(text), t),
        doc_term_count(
            if tokens_of(text).len() == 0 {
                docs.remove(id)
            } else {
                docs.insert(id, tokens_of(text))
            },
            t,
            other,
        ) == doc_term_count(docs, t, other),
{
    if tokens_of(text).len() == 0 {
        assert(occurrences(tokens_of(text), t) == 0);
    }
}

/// Removing a document right after indexing it undoes the indexing: the other
/// documents are as before, and the token total is what removing the document
/// from the original index gives. This holds of both indices, whose `index` and
/// `remove` change the documents in the same way.
pub proof fn law_remove_undoes_index(
    docs: Map<u64, Seq<Seq<char>>>,
    id: u64,
    text: Seq<char>,
    before: int,
    indexed: int,
    removed: int,
)
    requires
        indexed + doc_len(docs, id) == before + tokens_of(text).len(),
        removed + doc_len(
            if tokens_of(text).len() == 0 {
                docs.remove(id)
            } else {
                docs.insert(id, tokens_of(text))
            },
            id,
        ) == indexed,
    ensures
        (if tokens_of(text).len() == 0 {
            docs.remove(id)
        } else {
            docs.insert(id, tokens_of(text))
        }).remove(id) == docs.remove(id),
        removed + doc_len(docs, id) == before,
{
    if tokens_of(text).len() == 0 {
        assert(docs.remove(id).remove(id) =~= docs.remove(id));
    } else {
        assert(docs.insert(id, tokens_of(text)).remove(id) =~= docs.remove(id));
    }
}

/// The documents after indexing `text` under `id`: its tokens replace whatever
/// `id` held, and a text without tokens leaves `id` out.
pub open spec fn after_index(docs: Map<u64, Seq<Seq<char>>>, id: u64, text: Seq<char>) -> Map<
    u64,
    Seq<Seq<char>>,
> {
    if tokens_of(text).len() == 0 {
        docs.remove(id)
    } else {
        docs.insert(id, tokens_of(text))
    }
}

/// Indexing a document again replaces its earlier text: indexing `a` then `b`
/// under `id` gives what indexing `b` alone gives (so indexing the same text twice
/// is the same as once), and a text without tokens leaves no trace of `id`.
pub proof fn law_reindex_replaces(
    docs: Map<u64, Seq<Seq<char>>>,
    id: u64,
    a: Seq<char>,
    b: Seq<char>,
    q: Seq<Seq<char>>,
)
    ensures
        after_index(after_index(docs, id, a), id, b) == after_index(docs, id, b),
        tokens_of(b).len() == 0 ==> !after_index(docs, id, b).contains_key(id)
            && !shares_token(after_index(docs, id, b), q, id),
{
    assert(after_index(after_index(docs, id, a), id, b) =~= after_index(docs, id, b));
}

/// Removing a document is final and idempotent: afterwards it contains no term,
/// so no query token is shared with it; removing it twice is removing it once;
/// removing an absent document changes nothing.
pub proof fn law_remove_idempotent(docs: Map<u64, Seq<Seq<char>>>, id: u64, q: Seq<Seq<char>>)
    ensures
        !shares_token(docs.remove(id), q, id),
        docs.remove(id).remove(id) == docs.remove(id),
        !docs.contains_key(id) ==> docs.remove(id) == docs,
{
    assert(docs.remove(id).remove(id) =~= docs.remove(id));
    if !docs.contains_key(id) {
        assert(docs.remove(id) =~= docs);
    }
}

/// A removed document contains no term.
pub proof fn law_nothing_after_remove(docs: Map<u64, Seq<Seq<char>>>, id: u64, t: Seq<char>)
    ensures
        doc_term_count(docs.remove(id), t, id) == 0,
        doc_len(docs.remove(id), id) == 0,
{
}

/// In-memory keyword index: per document its token count, per term and document
/// the term frequency, and the token count of all documents together.
#[derive(Debug)]
pub struct Bm25Index {
    term_docs: TermTable,
    doc_lengths: Vec<(MemoryId, usize)>,
    total_tokens: usize,
}

impl Bm25Index {
    /// The indexed documents, each as its sequence of tokens.
    pub closed spec fn documents(&self) -> Map<u64, Seq<Seq<char>>> {
        self.term_docs.documents()
    }

    /// The number of tokens of all indexed documents together.
    pub closed spec fn token_total(&self) -> nat {
        self.total_tokens as nat
    }

    /// Well-formedness: the statistics describe the documents, and no document is
    /// empty.
    pub closed spec fn wf(&self) -> bool {
        &&& self.term_docs.wf()
        &&& keyed(per_doc(self.doc_lengths@))
        &&& forall|d: u64| #[trigger]
            doc_len(self.documents(), d) == lookup(per_doc(self.doc_lengths@), d)
        &&& forall|d: u64| #[trigger]
            self.documents().contains_key(d) ==> self.documents()[d].len() > 0
        &&& self.total_tokens == total(per_doc(self.doc_lengths@))
    }

    /// Creates an empty index.
    pub fn new() -> (ix: Bm25Index)
        ensures
            ix.wf(),
            ix.documents() == Map::<u64, Seq<Seq<char>>>::empty(),
            ix.token_total() == 0,
    {
        let ix = Bm25Index { term_docs: TermTable::new(), doc_lengths: Vec::new(), total_tokens: 0 };
        assert(per_doc(ix.doc_lengths@) =~= Seq::<(u64, nat)>::empty());
        ix
    }

    /// Tokenizes text into lowercase alphanumeric terms.
    pub fn tokenize(text: &str) -> (r: Vec<String>)
        ensures
            texts(r@) == tokens_of(text@),
    {
        let cs = chars_of(text);
        let mut out: Vec<String> = Vec::new();
        let mut cur: Vec<char> = Vec::new();
        let mut i: usize = 0;
        assert(cs@.take(0) =~= Seq::<char>::empty());
        assert(texts(out@) =~= scan_runs(cs@.take(0)).0.map_values(|w: Seq<char>| fold_word(w)));
        while i < cs.len()
            invariant
                i <= cs@.len(),
                cs@ == text@,
                texts(out@) == scan_runs(cs@.take(i as int)).0.map_values(
                    |w: Seq<char>| fold_word(w),
                ),
                cur@ == scan_runs(cs@.take(i as int)).1,
            decreases cs@.len() - i,
        {
            let c = cs[i];
            assert(cs@.take(i + 1).drop_last() =~= cs@.take(i as int));
            assert(cs@.take(i + 1).last() == c);
            if char_is_alphanumeric(c) {
                cur.push(c);
            } else if cur.len() > 0 {
                let word = string_from_chars(cur.as_slice());
                let ghost before = out@;
                out.push(to_lower(word.as_str()));
                assert(texts(out@) =~= texts(before).push(fold_word(cur@)));
                cur = Vec::new();
                assert(cur@ =~= Seq::<char>::empty());
            } else {
                assert(cur@ =~= Seq::<char>::empty());
            }
            i = i + 1;
        }
        assert(cs@.take(cs@.len() as int) =~= cs@);
        if cur.len() > 0 {
            let word = string_from_chars(cur.as_slice());
            let ghost before = out@;
            out.push(to_lower(word.as_str()));
            assert(texts(out@) =~= texts(before).push(fold_word(cur@)));
        }
        out
    }

    /// Removes document `id` from the index; an unknown document changes nothing.
    pub fn remove(&mut self, id: MemoryId)
        requires
            old(self).wf(),
        ensures
            final(self).wf(),
            final(self).documents() == old(self).documents().remove(id.0),
            final(self).token_total() + doc_len(old(self).documents(), id.0) == old(
                self,
            ).token_total(),
    {
        let ghost lv = per_doc(self.doc_lengths@);
        let mut j: usize = 0;
        while j < self.doc_lengths.len() && self.doc_lengths[j].0.0 != id.0
            invariant
                j <= self.doc_lengths@.len(),
                lv == per_doc(self.doc_lengths@),
                forall|i: int| 0 <= i < j ==> lv[i].0 != id.0,
            decreases self.doc_lengths@.len() - j,
        {
            j = j + 1;
        }
        if j == self.doc_lengths.len() {
            proof {
                lemma_lookup_absent(lv, id.0);
                assert(doc_len(self.documents(), id.0) == lookup(lv, id.0));
                assert(self.documents().remove(id.0) =~= self.documents());
            }
            return;
        }
        let doc_len_here = self.doc_lengths[j].1;
        proof {
            assert(lv[j as int] == (id.0, doc_len_here as nat));
            lemma_lookup_at(lv, j as int);
            assert(doc_len(self.documents(), id.0) == lookup(lv, id.0));
            lemma_total_remove(lv, j as int);
        }
        self.doc_lengths.remove(j);
        assert(per_doc(self.doc_lengths@) =~= lv.remove(j as int));
        self.total_tokens = self.total_tokens.saturating_sub(doc_len_here);
        let ghost docs = self.documents();
        self.term_docs.remove_doc(id);
        proof {
            let nv = per_doc(self.doc_lengths@);
            assert forall|i: int, k: int| 0 <= i < k < nv.len() implies nv[i].0 != nv[k].0 by {
                let i0 = if i < j { i } else { i + 1 };
                let k0 = if k < j { k } else { k + 1 };
                assert(nv[i] == lv[i0]);
                assert(nv[k] == lv[k0]);
            }
            assert forall|i: int| 0 <= i < nv.len() implies nv[i].1 > 0 by {
                let i0 = if i < j { i } else { i + 1 };
                assert(nv[i] == lv[i0]);
            }
            assert forall|d: u64| #[trigger]
                doc_len(self.documents(), d) == lookup(per_doc(self.doc_lengths@), d) by {
                lemma_lookup_remove(lv, j as int, d);
                assert(doc_len(docs, d) == lookup(lv, d));
            }
            assert forall|d: u64| #[trigger]
                self.documents().contains_key(d) implies self.documents()[d].len() > 0 by {
                assert(docs.contains_key(d));
            }
        }
    }

    /// Indexes or re-indexes document `id` with the tokens of `text`. A text
    /// without tokens leaves the document out of the index.
    pub fn index(&mut self, id: MemoryId, text: &str)
        requires
            old(self).wf(),
            old(self).token_total() + tokens_of(text@).len() <= usize::MAX,
        ensures
            final(self).wf(),
            final(self).documents() == if tokens_of(text@).len() == 0 {
                old(self).documents().remove(id.0)
            } else {
                old(self).documents().insert(id.0, tokens_of(text@))
            },
            final(self).token_total() + doc_len(old(self).documents(), id.0) == old(
                self,
            ).token_total() + tokens_of(text@).len(),
    {
        self.remove(id);
        let tokens = Self::tokenize(text);
        let doc_len_new = tokens.len();
        if doc_len_new == 0 {
            return;
        }
        let ghost lv = per_doc(self.doc_lengths@);
        let ghost docs = self.documents();
        proof {
            assert(doc_len(docs, id.0) == 0);
            assert(lookup(lv, id.0) == 0);
            assert forall|i: int| 0 <= i < lv.len() implies lv[i].0 != id.0 by {
                lemma_lookup_at(lv, i);
            }
        }
        self.doc_lengths.push((id, doc_len_new));
        assert(per_doc(self.doc_lengths@) =~= lv.push((id.0, doc_len_new as nat)));
        assert(per_doc(self.doc_lengths@).drop_last() =~= lv);
        self.total_tokens = self.total_tokens + doc_len_new;
        let tally = crate::memory::terms::count_terms(&tokens);
        self.term_docs.add_doc(id, &tally, Ghost(texts(tokens@)));
        proof {
            let nv = per_doc(self.doc_lengths@);
            assert forall|d: u64| #[trigger]
                doc_len(self.documents(), d) == lookup(per_doc(self.doc_lengths@), d) by {
                lemma_lookup_push(lv, (id.0, doc_len_new as nat), d);
                assert(doc_len(docs, d) == lookup(lv, d));
            }
            assert forall|d: u64| #[trigger]
                self.documents().contains_key(d) implies self.documents()[d].len() > 0 by {
                if d != id.0 {
                    assert(docs.contains_key(d));
                }
            }
        }
    }

    /// How often `term` occurs in document `doc` (zero when either is absent).
    pub fn term_frequency(&self, term: &str, doc: MemoryId) -> (r: usize)
        requires
            self.wf(),
        ensures
            r == doc_term_count(self.documents(), term@, doc.0),
    {
        self.term_docs.frequency(term, doc)
    }

    /// The documents containing `term`, each with its number of occurrences.
    pub fn postings(&self, term: &str) -> (r: Vec<(MemoryId, usize)>)
        requires
            self.wf(),
        ensures
            keyed(per_doc(r@)),
            forall|d: u64| #[trigger]
                lookup(per_doc(r@), d) == doc_term_count(self.documents(), term@, d),
    {
        self.term_docs.postings(term)
    }

    /// The documents that contain at least one token of `query`, each once: the
    /// candidates that ranking scores.
    pub fn matching_documents(&self, query: &str) -> (r: Vec<MemoryId>)
        requires
            self.wf(),
        ensures
            forall|a: int, b: int| 0 <= a < b < r@.len() ==> r@[a] != r@[b],
            forall|d: u64| #[trigger]
                lists(r@, d) <==> shares_token(self.documents(), tokens_of(query@), d),
    {
        let tokens = Self::tokenize(query);
        let ghost toks = tokens_of(query@);
        let ghost docs = self.documents();
        let mut r: Vec<MemoryId> = Vec::new();
        let mut i: usize = 0;
        while i < tokens.len()
            invariant
                i <= tokens@.len(),
                self.wf(),
                docs == self.documents(),
                texts(tokens@) == toks,
                forall|a: int, b: int| 0 <= a < b < r@.len() ==> r@[a] != r@[b],
                forall|d: u64| #[trigger]
                    lists(r@, d) <==> exists|k: int|
                        0 <= k < i && #[trigger] doc_term_count(docs, toks[k], d) > 0,
            decreases tokens@.len() - i,
        {
            assert(toks[i as int] == tokens@[i as int]@);
            let ps = self.postings(tokens[i].as_str());
            let ghost pv = per_doc(ps@);
            let mut j: usize = 0;
            while j < ps.len()
                invariant
                    j <= ps@.len(),
                    i < tokens@.len(),
                    self.wf(),
                    docs == self.documents(),
                    texts(tokens@) == toks,
                    pv == per_doc(ps@),
                    keyed(pv),
                    forall|d: u64| #[trigger] lookup(pv, d) == doc_term_count(docs, toks[i as int], d),
                    forall|a: int, b: int| 0 <= a < b < r@.len() ==> r@[a] != r@[b],
                    forall|d: u64| #[trigger]
                        lists(r@, d) <==> (exists|k: int|
                            0 <= k < i && #[trigger] doc_term_count(docs, toks[k], d) > 0) || exists|m: int|
                            0 <= m < j && #[trigger] pv[m].0 == d,
                decreases ps@.len() - j,
            {
                let id = ps[j].0;
                assert(pv[j as int].0 == id.0);
                if !contains_id(&r, id) {
                    let ghost before = r@;
                    r.push(id);
                    assert forall|a: int, b: int| 0 <= a < b < r@.len() implies r@[a] != r@[b] by {
                        if b == before.len() {
                            assert(r@[a] == before[a]);
                            assert(before[a].0 != id.0);
                        } else {
                            assert(r@[a] == before[a]);
                            assert(r@[b] == before[b]);
                        }
                    }
                    assert forall|d: u64| #[trigger] lists(r@, d) <==> (lists(before, d) || d == id.0) by {
                        if lists(before, d) {
                            let a = choose|a: int| 0 <= a < before.len() && before[a].0 == d;
                            assert(r@[a] == before[a]);
                        }
                        if lists(r@, d) {
                            let a = choose|a: int| 0 <= a < r@.len() && r@[a].0 == d;
                            if a < before.len() {
                                assert(r@[a] == before[a]);
                            }
                        }
                        if d == id.0 {
                            assert(r@[before.len() as int].0 == d);
                        }
                    }
                }
                j = j + 1;
            }
            assert forall|d: u64| (exists|m: int| 0 <= m < ps@.len() && #[trigger] pv[m].0 == d) <==> doc_term_count(
                docs,
                toks[i as int],
                d,
            ) > 0 by {
                if exists|m: int| 0 <= m < ps@.len() && #[trigger] pv[m].0 == d {
                    let m = choose|m: int| 0 <= m < ps@.len() && #[trigger] pv[m].0 == d;
                    lemma_lookup_at(pv, m);
                } else {
                    lemma_lookup_absent(pv, d);
                }
            }
            assert forall|d: u64| #[trigger] lists(r@, d) <==> exists|k: int|
                0 <= k < i + 1 && #[trigger] doc_term_count(docs, toks[k], d) > 0 by {
                if exists|k: int| 0 <= k < i + 1 && #[trigger] doc_term_count(docs, toks[k], d) > 0 {
                    let k = choose|k: int| 0 <= k < i + 1 && #[trigger] doc_term_count(docs, toks[k], d) > 0;
                    if k < i {
                        assert(exists|k2: int| 0 <= k2 < i && #[trigger] doc_term_count(docs, toks[k2], d) > 0);
                    } else {
                        assert(doc_term_count(docs, toks[i as int], d) > 0);
                    }
                }
                if lists(r@, d) {
                    if exists|k: int| 0 <= k < i && #[trigger] doc_term_count(docs, toks[k], d) > 0 {
                        let k = choose|k: int| 0 <= k < i && #[trigger] doc_term_count(docs, toks[k], d) > 0;
                        assert(0 <= k < i + 1 && doc_term_count(docs, toks[k], d) > 0);
                    } else {
                        assert(doc_term_count(docs, toks[i as int], d) > 0);
                    }
                }
            }
            i = i + 1;
        }
        r
    }

    /// The token count of document `doc`, when it is indexed.
    pub fn doc_length(&self, doc: MemoryId) -> (r: Option<usize>)
        requires
            self.wf(),
        ensures
            self.documents().contains_key(doc.0) ==> r == Some(
                self.documents()[doc.0].len() as usize,
            ),
            !self.documents().contains_key(doc.0) ==> r is None,
    {
        let ghost lv = per_doc(self.doc_lengths@);
        let mut j: usize = 0;
        while j < self.doc_lengths.len()
            invariant
                j <= self.doc_lengths@.len(),
                lv == per_doc(self.doc_lengths@),
                self.wf(),
                forall|i: int| 0 <= i < j ==> lv[i].0 != doc.0,
            decreases self.doc_lengths@.len() - j,
        {
            if self.doc_lengths[j].0.0 == doc.0 {
                proof {
                    lemma_lookup_at(lv, j as int);
                    assert(doc_len(self.documents(), doc.0) == lookup(lv, doc.0));
                }
                return Some(self.doc_lengths[j].1);
            }
            j = j + 1;
        }
        proof {
            lemma_lookup_absent(lv, doc.0);
            assert(doc_len(self.documents(), doc.0) == lookup(lv, doc.0));
        }
        None
    }

    /// The number of indexed documents.
    pub fn document_count(&self) -> (n: usize)
        requires
            self.wf(),
        ensures
            n == self.documents().dom().len(),
    {
        proof {
            self.term_docs.lemma_finite();
            let lv = per_doc(self.doc_lengths@);
            assert forall|d: u64| self.documents().dom().contains(d) <==> lookup(lv, d) > 0 by {
                assert(doc_len(self.documents(), d) == lookup(lv, d));
            }
            lemma_keyed_len(lv, self.documents().dom());
        }
        self.doc_lengths.len()
    }

    /// The number of tokens of all indexed documents together.
    pub fn total_tokens(&self) -> (n: usize)
        ensures
            n == self.token_total(),
    {
        self.total_tokens
    }
}

} // verus!
