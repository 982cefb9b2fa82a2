//! The memory store: entries by identifier, the path index, and both search
//! indices kept in step with the entries.
use crate::memory::bm25::{Bm25Index, doc_len, lemma_tokens_join, tokens_of};
use crate::memory::indexer::ParsedMarkdown;
use crate::memory::types::{EntryView, MemoryConfig, MemoryEntry, MemoryError, MemoryId, texts};
use crate::memory::vector::SparseVectorIndex;
use crate::keyed::{
    distinct_keys, lemma_pairs_map_at, lemma_pairs_map_dom, lemma_pairs_map_len,
    lemma_pairs_map_remove, lemma_pairs_map_update, pairs_map,
};
use crate::text::{owned, str_eq};
use vstd::prelude::*;

verus! {

// ---------------------------------------------------------------------------
// The model of the store
// ---------------------------------------------------------------------------

/// The words of a list joined by single spaces.
pub open spec fn joined(ts: Seq<Seq<char>>) -> Seq<char>
    decreases ts.len(),
{
    if ts.len() == 0 {
        Seq::empty()
    } else if ts.len() == 1 {
        ts[0]
    } else {
        joined(ts.drop_last()) + " "@ + ts.last()
    }
}

/// The text an entry is indexed by: title, content and space-joined tags,
/// separated by spaces.
pub open spec fn full_text(e: EntryView) -> Seq<char> {
    e.title + " "@ + e.content + " "@ + joined(e.tags)
}

/// The text an entry is indexed under starts with its title, then a space, then
/// its content, then a space, then its tags joined by spaces; so its tokens are
/// those of the title, then of the content, then of the tags, and every token of
/// the title is a term of the indexed document.
pub proof fn law_indexed_text(e: EntryView)
    ensures
        full_text(e).take(e.title.len() as int) == e.title,
        full_text(e)[e.title.len() as int] == ' ',
        full_text(e).subrange(e.title.len() + 1int, e.title.len() + 1int + e.content.len()) == e.content,
        full_text(e)[e.title.len() + 1int + e.content.len()] == ' ',
        full_text(e).skip(e.title.len() + 2int + e.content.len()) == joined(e.tags),
        tokens_of(full_text(e)) == tokens_of(e.title) + tokens_of(e.content) + tokens_of(
            joined(e.tags),
        ),
        forall|i: int|
            0 <= i < tokens_of(e.title).len() ==> tokens_of(full_text(e)).contains(
                #[trigger] tokens_of(e.title)[i],
            ),
{
    reveal_strlit(" ");
    let t = e.title;
    let c = e.content;
    let g = joined(e.tags);
    assert(full_text(e) =~= t + (" "@ + (c + (" "@ + g))));
    assert(full_text(e).take(t.len() as int) =~= t);
    assert(full_text(e).subrange(t.len() + 1int, t.len() + 1int + c.len()) =~= c);
    assert(full_text(e).skip(t.len() + 2int + c.len()) =~= g);
    lemma_tokens_join(t, c + " "@ + g);
    lemma_tokens_join(c, g);
    assert(t + " "@ + (c + " "@ + g) =~= full_text(e));
    let all = tokens_of(full_text(e));
    assert(all =~= tokens_of(t) + tokens_of(c) + tokens_of(g));
    assert forall|i: int| 0 <= i < tokens_of(t).len() implies all.contains(
        #[trigger] tokens_of(t)[i],
    ) by {
        assert(all[i] == tokens_of(t)[i]);
    }
}

/// The documents the indices hold for a set of entries: each entry whose text
/// has tokens, by identifier.
pub open spec fn indexed_docs(entries: Map<u64, EntryView>) -> Map<u64, Seq<Seq<char>>> {
    Map::new(
        |k: u64| entries.contains_key(k) && tokens_of(full_text(entries[k])).len() > 0,
        |k: u64| tokens_of(full_text(entries[k])),
    )
}

/// The state of a store as plain values: entries by identifier, the identifier
/// recorded for each file path, and the identifier handed out next.
pub struct StoreView {
    pub entries: Map<u64, EntryView>,
    pub paths: Map<Seq<char>, u64>,
    pub next_id: u64,
}

/// The identifier under which an entry is stored: its own, or the next free one
/// when it asks for one with identifier zero.
pub open spec fn assigned_id(st: StoreView, e: EntryView) -> u64 {
    if e.id == 0 {
        st.next_id
    } else {
        e.id
    }
}

/// Storing entry `e`: it is kept under its assigned identifier (replacing any
/// entry there), its file path is recorded for that identifier, and a fresh
/// identifier is used up when one was handed out.
pub open spec fn store_step(st: StoreView, e: EntryView) -> StoreView {
    let mid = assigned_id(st, e);
    StoreView {
        entries: st.entries.insert(mid, EntryView { id: mid, ..e }),
        paths: match e.file_path {
            Some(p) => st.paths.insert(p, mid),
            None => st.paths,
        },
        next_id: if e.id == 0 {
            if st.next_id == u64::MAX {
                0
            } else {
                (st.next_id + 1) as u64
            }
        } else {
            st.next_id
        },
    }
}

/// A parsed note as the entry it becomes: it keeps the identifier already
/// recorded for its path, or asks for a fresh one.
pub open spec fn note_entry(st: StoreView, n: ParsedMarkdown) -> EntryView {
    EntryView {
        id: if st.paths.contains_key(n.file_path@) {
            st.paths[n.file_path@]
        } else {
            0
        },
        title: n.title@,
        content: n.content@,
        tags: texts(n.tags@),
        file_path: Some(n.file_path@),
    }
}

/// Storing notes one after another.
pub open spec fn absorb_notes(st: StoreView, notes: Seq<ParsedMarkdown>) -> StoreView
    decreases notes.len(),
{
    if notes.len() == 0 {
        st
    } else {
        let before = absorb_notes(st, notes.drop_last());
        store_step(before, note_entry(before, notes.last()))
    }
}

/// The number of tokens the notes bring, together.
pub open spec fn note_tokens(notes: Seq<ParsedMarkdown>) -> nat
    decreases notes.len(),
{
    if notes.len() == 0 {
        0
    } else {
        note_tokens(notes.drop_last()) + tokens_of(
            full_text(note_entry(StoreView { entries: Map::empty(), paths: Map::empty(), next_id: 0 }, notes.last())),
        ).len()
    }
}

/// Reading back a stored entry: after storing `e`, the store holds it under the
/// identifier it was given, carrying that identifier, and every other entry is
/// kept.
pub proof fn law_get_after_store(st: StoreView, e: EntryView)
    ensures
        store_step(st, e).entries.contains_key(assigned_id(st, e)),
        store_step(st, e).entries[assigned_id(st, e)] == (EntryView { id: assigned_id(st, e), ..e }),
        forall|k: u64|
            k != assigned_id(st, e) && st.entries.contains_key(k) ==> #[trigger] store_step(
                st,
                e,
            ).entries[k] == st.entries[k],
{
}

/// Deleting what was just stored leaves the other entries as they were before
/// the store.
pub proof fn law_delete_after_store(st: StoreView, e: EntryView)
    ensures
        store_step(st, e).entries.remove(assigned_id(st, e)) == st.entries.remove(
            assigned_id(st, e),
        ),
{
    assert(store_step(st, e).entries.remove(assigned_id(st, e)) =~= st.entries.remove(
        assigned_id(st, e),
    ));
}

/// Fresh identifiers are handed out in order: two entries stored without an
/// identifier get the next identifier and the one after it.
pub proof fn law_fresh_ids_in_order(st: StoreView, first: EntryView, second: EntryView)
    requires
        first.id == 0,
        second.id == 0,
        st.next_id < u64::MAX,
    ensures
        assigned_id(st, first) == st.next_id,
        assigned_id(store_step(st, first), second) == st.next_id + 1,
{
}

/// Whether every recorded path names a stored entry under a nonzero identifier.
pub open spec fn paths_recorded(st: StoreView) -> bool {
    forall|p: Seq<char>| #[trigger]
        st.paths.contains_key(p) ==> st.paths[p] != 0 && st.entries.contains_key(st.paths[p])
}

/// Indexing a vault again: when every note's path is already recorded, each note
/// updates the entry recorded for its path in place, so no entry is added, no
/// identifier is used up and the path index stays as it was.
pub proof fn law_reindex_vault(st: StoreView, notes: Seq<ParsedMarkdown>)
    requires
        paths_recorded(st),
        forall|i: int| 0 <= i < notes.len() ==> st.paths.contains_key(#[trigger] notes[i].file_path@),
    ensures
        absorb_notes(st, notes).entries.dom() == st.entries.dom(),
        absorb_notes(st, notes).paths == st.paths,
        absorb_notes(st, notes).next_id == st.next_id,
    decreases notes.len(),
{
    if notes.len() > 0 {
        let rest = notes.drop_last();
        assert forall|i: int| 0 <= i < rest.len() implies st.paths.contains_key(
            #[trigger] rest[i].file_path@,
        ) by {
            assert(rest[i] == notes[i]);
        }
        law_reindex_vault(st, rest);
        let before = absorb_notes(st, rest);
        let n = notes.last();
        assert(st.paths.contains_key(notes[notes.len() - 1].file_path@));
        let id = st.paths[n.file_path@];
        let e = note_entry(before, n);
        assert(e.id == id);
        assert(id != 0);
        assert(before.entries.dom().contains(id));
        assert(store_step(before, e).entries.dom() =~= st.entries.dom());
        assert(store_step(before, e).paths =~= st.paths);
    }
}

/// Absorbing notes keeps every recorded path naming a stored entry, records each
/// note's path, and uses up at most one fresh identifier per note.
pub proof fn lemma_absorb_records(st: StoreView, notes: Seq<ParsedMarkdown>)
    requires
        paths_recorded(st),
        1 <= st.next_id,
        st.next_id + notes.len() <= u64::MAX,
    ensures
        paths_recorded(absorb_notes(st, notes)),
        st.next_id <= absorb_notes(st, notes).next_id <= st.next_id + notes.len(),
        forall|i: int|
            0 <= i < notes.len() ==> absorb_notes(st, notes).paths.contains_key(
                #[trigger] notes[i].file_path@,
            ),
    decreases notes.len(),
{
    if notes.len() > 0 {
        let rest = notes.drop_last();
        lemma_absorb_records(st, rest);
        let before = absorb_notes(st, rest);
        let n = notes.last();
        let e = note_entry(before, n);
        let after = store_step(before, e);
        let mid = assigned_id(before, e);
        assert(mid != 0);
        assert(after.entries.contains_key(mid));
        assert forall|q: Seq<char>| #[trigger] after.paths.contains_key(q) implies after.paths[q] != 0
            && after.entries.contains_key(after.paths[q]) by {
            if q != n.file_path@ {
                assert(before.paths.contains_key(q));
            }
        }
        assert forall|i: int| 0 <= i < notes.len() implies after.paths.contains_key(
            #[trigger] notes[i].file_path@,
        ) by {
            if i < notes.len() - 1 {
                assert(rest[i] == notes[i]);
                assert(before.paths.contains_key(rest[i].file_path@));
            }
        }
    }
}

/// Indexing the same notes twice: the second time every note updates the entry
/// its path already names, so the entries (and their count), the path index and
/// the next identifier are as after the first time.
pub proof fn law_index_vault_twice(st: StoreView, notes: Seq<ParsedMarkdown>)
    requires
        paths_recorded(st),
        1 <= st.next_id,
        st.next_id + notes.len() <= u64::MAX,
    ensures
        absorb_notes(absorb_notes(st, notes), notes).entries.dom() == absorb_notes(
            st,
            notes,
        ).entries.dom(),
        absorb_notes(absorb_notes(st, notes), notes).paths == absorb_notes(st, notes).paths,
        absorb_notes(absorb_notes(st, notes), notes).next_id == absorb_notes(st, notes).next_id,
{
    lemma_absorb_records(st, notes);
    law_reindex_vault(absorb_notes(st, notes), notes);
}

/// The entries as (identifier, entry) pairs.
spec fn entry_pairs(es: Seq<MemoryEntry>) -> Seq<(u64, EntryView)> {
    es.map_values(|e: MemoryEntry| (e.id.0, e.view_of()))
}

/// The path index as (path, identifier) pairs.
spec fn path_pairs(ps: Seq<(String, MemoryId)>) -> Seq<(Seq<char>, u64)> {
    ps.map_values(|p: (String, MemoryId)| (p.0@, p.1.0))
}

/// The words of `tags` joined by single spaces.
fn join_tags(tags: &Vec<String>) -> (r: String)
    ensures
        r@ == joined(texts(tags@)),
{
    let ghost ts = texts(tags@);
    let mut s = String::new();
    let mut i: usize = 0;
    assert(ts.take(0) =~= Seq::<Seq<char>>::empty());
    while i < tags.len()
        invariant
            i <= tags@.len(),
            ts == texts(tags@),
            s@ == joined(ts.take(i as int)),
        decreases tags@.len() - i,
    {
        assert(ts.take(i + 1).drop_last() =~= ts.take(i as int));
        assert(ts.take(i + 1).last() == tags@[i as int]@);
        if i > 0 {
            s.append(" ");
            proof {
                reveal_strlit(" ");
            }
        } else {
            assert(ts.take(1)[0] == tags@[0]@);
        }
        s.append(tags[i].as_str());
        i = i + 1;
    }
    assert(ts.take(tags@.len() as int) =~= ts);
    s
}

/// The text an entry is indexed by.
fn entry_text(entry: &MemoryEntry) -> (r: String)
    ensures
        r@ == full_text(entry.view_of()),
{
    let tags = join_tags(&entry.tags);
    let mut s = owned(entry.title.as_str());
    s.append(" ");
    s.append(entry.content.as_str());
    s.append(" ");
    s.append(tags.as_str());
    proof {
        reveal_strlit(" ");
    }
    s
}

/// Persistent memory store: entries by identifier, the identifier recorded for
/// each note path, and the keyword and vector indices over the entries' texts.
#[derive(Debug)]
pub struct MemoryStore {
    config: MemoryConfig,
    entries: Vec<MemoryEntry>,
    path_index: Vec<(String, MemoryId)>,
    bm25_index: Bm25Index,
    vector_index: SparseVectorIndex,
    next_memory_id: u64,
}

impl MemoryStore {
    /// The store as plain values.
    pub closed spec fn view(&self) -> StoreView {
        StoreView {
            entries: pairs_map(entry_pairs(self.entries@)),
            paths: pairs_map(path_pairs(self.path_index@)),
            next_id: self.next_memory_id,
        }
    }

    /// The keyword index.
    pub closed spec fn keyword_view(&self) -> Bm25Index {
        self.bm25_index
    }

    /// The vector index.
    pub closed spec fn vector_view(&self) -> SparseVectorIndex {
        self.vector_index
    }

    /// The configuration.
    pub closed spec fn config_view(&self) -> MemoryConfig {
        self.config
    }

    /// Well-formedness: identifiers and paths are unique in their lists, and both
    /// indices hold exactly the tokens of the stored entries.
    pub closed spec fn wf(&self) -> bool {
        &&& distinct_keys(entry_pairs(self.entries@))
        &&& distinct_keys(path_pairs(self.path_index@))
        &&& forall|i: int| 0 <= i < self.entries@.len() ==> #[trigger] self.entries@[i].view_of().id
            == self.entries@[i].id.0
        &&& self.bm25_index.wf()
        &&& self.vector_index.wf()
        &&& self.bm25_index.documents() == indexed_docs(self.view().entries)
        &&& self.vector_index.documents() == indexed_docs(self.view().entries)
    }

    /// Creates an empty store; the first identifier handed out is 1.
    pub fn new(config: MemoryConfig) -> (s: MemoryStore)
        ensures
            s.wf(),
            s.view().entries == Map::<u64, EntryView>::empty(),
            s.view().paths == Map::<Seq<char>, u64>::empty(),
            s.view().next_id == 1,
            s.config_view() == config,
            s.keyword_view().token_total() == 0,
    {
        let s = MemoryStore {
            config,
            entries: Vec::new(),
            path_index: Vec::new(),
            bm25_index: Bm25Index::new(),
            vector_index: SparseVectorIndex::new(),
            next_memory_id: 1,
        };
        assert(entry_pairs(s.entries@) =~= Seq::<(u64, EntryView)>::empty());
        assert(path_pairs(s.path_index@) =~= Seq::<(Seq<char>, u64)>::empty());
        assert(indexed_docs(s.view().entries) =~= Map::<u64, Seq<Seq<char>>>::empty());
        s
    }

    /// Returns the configuration.
    pub fn config(&self) -> (c: &MemoryConfig)
        ensures
            *c == self.config_view(),
    {
        &self.config
    }

    /// The keyword index over the stored entries.
    pub fn keyword_index(&self) -> (ix: &Bm25Index)
        ensures
            *ix == self.keyword_view(),
    {
        &self.bm25_index
    }

    /// The vector index over the stored entries.
    pub fn vector_index(&self) -> (ix: &SparseVectorIndex)
        ensures
            *ix == self.vector_view(),
    {
        &self.vector_index
    }

    /// The indices are well formed and hold the stored entries' tokens.
    pub proof fn lemma_indices(&self)
        requires
            self.wf(),
        ensures
            self.keyword_view().wf(),
            self.vector_view().wf(),
            self.keyword_view().documents() == indexed_docs(self.view().entries),
            self.vector_view().documents() == indexed_docs(self.view().entries),
    {
    }

    /// Stores `entry` and indexes its text. An entry with identifier zero gets
    /// the next free identifier; any other identifier is kept, replacing an
    /// entry stored under it. Returns the identifier.
    pub fn store(&mut self, entry: MemoryEntry) -> (r: Result<MemoryId, MemoryError>)
        requires
            old(self).wf(),
            old(self).keyword_view().token_total() + tokens_of(full_text(entry.view_of())).len()
                <= usize::MAX,
            old(self).vector_view().documents().dom().len() < usize::MAX,
        ensures
            final(self).wf(),
            r == Ok::<MemoryId, MemoryError>(MemoryId(assigned_id(old(self).view(), entry.view_of()))),
            final(self).view() == store_step(old(self).view(), entry.view_of()),
            final(self).keyword_view().token_total() <= old(self).keyword_view().token_total()
                + tokens_of(full_text(entry.view_of())).len(),
            final(self).vector_view().documents().dom().len() <= old(self).vector_view().documents().dom().len() + 1,
    {
        let ghost old_view = self.view();
        let mut entry = entry;
        let ghost ev0 = entry.view_of();
        let mid = if entry.id.0 == 0 {
            let fresh = self.next_memory_id;
            self.next_memory_id = self.next_memory_id.wrapping_add(1);
            MemoryId(fresh)
        } else {
            entry.id
        };
        entry.id = mid;
        let ghost ev = entry.view_of();
        assert(ev == EntryView { id: mid.0, ..ev0 });
        let text = entry_text(&entry);
        assert(full_text(ev) == full_text(ev0));
        let ghost docs = self.bm25_index.documents();
        self.bm25_index.index(mid, text.as_str());
        proof {
            self.vector_index.lemma_finite();
        }
        self.vector_index.index(mid, text.as_str());
        match &entry.file_path {
            Some(path) => {
                self.record_path(path.as_str(), mid);
            },
            None => {},
        }
        self.put_entry(entry);
        proof {
            let entries = self.view().entries;
            assert(entries == old_view.entries.insert(mid.0, ev));
            assert(indexed_docs(entries) =~= if tokens_of(full_text(ev)).len() == 0 {
                indexed_docs(old_view.entries).remove(mid.0)
            } else {
                indexed_docs(old_view.entries).insert(mid.0, tokens_of(full_text(ev)))
            });
            assert(self.view().entries == store_step(old_view, ev0).entries);
            assert(self.view().paths == store_step(old_view, ev0).paths);
            assert(self.view().next_id == store_step(old_view, ev0).next_id);
            assert(self.view() == store_step(old_view, ev0));
            let od = old(self).vector_index.documents().dom();
            if tokens_of(full_text(ev)).len() == 0 {
                assert(self.vector_index.documents().dom() =~= od.remove(mid.0));
            } else {
                assert(self.vector_index.documents().dom() =~= od.insert(mid.0));
            }
        }
        Ok(mid)
    }

    /// Records `path` as the path of entry `id`.
    fn record_path(&mut self, path: &str, id: MemoryId)
        requires
            distinct_keys(path_pairs(old(self).path_index@)),
        ensures
            distinct_keys(path_pairs(final(self).path_index@)),
            pairs_map(path_pairs(final(self).path_index@)) == pairs_map(
                path_pairs(old(self).path_index@),
            ).insert(path@, id.0),
            final(self).entries == old(self).entries,
            final(self).bm25_index == old(self).bm25_index,
            final(self).vector_index == old(self).vector_index,
            final(self).next_memory_id == old(self).next_memory_id,
            final(self).config == old(self).config,
    {
        let ghost pv = path_pairs(self.path_index@);
        let mut i: usize = 0;
        while i < self.path_index.len() && !str_eq(self.path_index[i].0.as_str(), path)
            invariant
                i <= self.path_index@.len(),
                pv == path_pairs(self.path_index@),
                forall|a: int| 0 <= a < i ==> pv[a].0 != path@,
            decreases self.path_index@.len() - i,
        {
            i = i + 1;
        }
        if i < self.path_index.len() {
            self.path_index[i].1 = id;
            proof {
                assert(path_pairs(self.path_index@) =~= pv.update(i as int, (pv[i as int].0, id.0)));
                lemma_pairs_map_update(pv, i as int, id.0);
            }
        } else {
            self.path_index.push((owned(path), id));
            proof {
                assert(path_pairs(self.path_index@) =~= pv.push((path@, id.0)));
                assert(path_pairs(self.path_index@).drop_last() =~= pv);
            }
        }
    }

    /// Keeps `entry` under its identifier, replacing an entry stored there.
    fn put_entry(&mut self, entry: MemoryEntry)
        requires
            distinct_keys(entry_pairs(old(self).entries@)),
            forall|i: int| 0 <= i < old(self).entries@.len() ==> #[trigger] old(self).entries@[i].view_of().id == old(self).entries@[i].id.0,
        ensures
            distinct_keys(entry_pairs(final(self).entries@)),
            forall|i: int| 0 <= i < final(self).entries@.len() ==> #[trigger] final(self).entries@[i].view_of().id == final(self).entries@[i].id.0,
            pairs_map(entry_pairs(final(self).entries@)) == pairs_map(
                entry_pairs(old(self).entries@),
            ).insert(entry.id.0, entry.view_of()),
            final(self).path_index == old(self).path_index,
            final(self).bm25_index == old(self).bm25_index,
            final(self).vector_index == old(self).vector_index,
            final(self).next_memory_id == old(self).next_memory_id,
            final(self).config == old(self).config,
    {
        let ghost ep = entry_pairs(self.entries@);
        let ghost ev = entry.view_of();
        let mut i: usize = 0;
        while i < self.entries.len() && self.entries[i].id.0 != entry.id.0
            invariant
                i <= self.entries@.len(),
                ep == entry_pairs(self.entries@),
                forall|a: int| 0 <= a < i ==> ep[a].0 != entry.id.0,
            decreases self.entries@.len() - i,
        {
            i = i + 1;
        }
        let ghost before = self.entries@;
        if i < self.entries.len() {
            self.entries.set(i, entry);
            proof {
                assert(self.entries@ == before.update(i as int, entry));
                assert(entry_pairs(self.entries@) =~= ep.update(i as int, (ep[i as int].0, ev)));
                lemma_pairs_map_update(ep, i as int, ev);
                assert forall|a: int| 0 <= a < self.entries@.len() implies #[trigger] self.entries@[
                    a
                ].view_of().id == self.entries@[a].id.0 by {
                    if a != i {
                        assert(self.entries@[a] == before[a]);
                    }
                }
            }
        } else {
            self.entries.push(entry);
            proof {
                assert(entry_pairs(self.entries@) =~= ep.push((ev.id, ev)));
                assert(entry_pairs(self.entries@).drop_last() =~= ep);
                assert forall|a: int| 0 <= a < self.entries@.len() implies #[trigger] self.entries@[
                    a
                ].view_of().id == self.entries@[a].id.0 by {
                    if a < before.len() {
                        assert(self.entries@[a] == before[a]);
                    }
                }
            }
        }
    }

    /// Returns a copy of the entry stored under `id`, or `EntryNotFound`.
    pub fn get(&self, id: MemoryId) -> (r: Result<MemoryEntry, MemoryError>)
        requires
            self.wf(),
        ensures
            self.view().entries.contains_key(id.0) ==> (r matches Ok(e) && e.view_of()
                == self.view().entries[id.0]),
            !self.view().entries.contains_key(id.0) ==> r == Err::<MemoryEntry, MemoryError>(
                MemoryError::EntryNotFound { id },
            ),
    {
        let ghost ep = entry_pairs(self.entries@);
        let mut i: usize = 0;
        while i < self.entries.len()
            invariant
                i <= self.entries@.len(),
                ep == entry_pairs(self.entries@),
                self.wf(),
                forall|a: int| 0 <= a < i ==> ep[a].0 != id.0,
            decreases self.entries@.len() - i,
        {
            if self.entries[i].id.0 == id.0 {
                proof {
                    lemma_pairs_map_at(ep, i as int);
                }
                return Ok(self.entries[i].duplicate());
            }
            i = i + 1;
        }
        proof {
            lemma_pairs_map_dom(ep, id.0);
        }
        Err(MemoryError::EntryNotFound { id })
    }

    /// Deletes the entry stored under `id`, drops it from both indices and forgets
    /// its file path; an unknown identifier is reported as `EntryNotFound`.
    pub fn delete(&mut self, id: MemoryId) -> (r: Result<(), MemoryError>)
        requires
            old(self).wf(),
        ensures
            final(self).wf(),
            !old(self).view().entries.contains_key(id.0) ==> {
                &&& r == Err::<(), MemoryError>(MemoryError::EntryNotFound { id })
                &&& final(self).view() == old(self).view()
            },
            old(self).view().entries.contains_key(id.0) ==> {
                &&& r is Ok
                &&& final(self).view().entries == old(self).view().entries.remove(id.0)
                &&& final(self).view().paths == match old(self).view().entries[id.0].file_path {
                    Some(p) => old(self).view().paths.remove(p),
                    None => old(self).view().paths,
                }
                &&& final(self).view().next_id == old(self).view().next_id
            },
            final(self).keyword_view().token_total() <= old(self).keyword_view().token_total(),
            final(self).vector_view().documents().dom().len() <= old(self).vector_view().documents().dom().len(),
    {
        let ghost old_view = self.view();
        let ghost ep = entry_pairs(self.entries@);
        let mut i: usize = 0;
        while i < self.entries.len() && self.entries[i].id.0 != id.0
            invariant
                i <= self.entries@.len(),
                ep == entry_pairs(self.entries@),
                forall|a: int| 0 <= a < i ==> ep[a].0 != id.0,
            decreases self.entries@.len() - i,
        {
            i = i + 1;
        }
        if i == self.entries.len() {
            proof {
                lemma_pairs_map_dom(ep, id.0);
            }
            return Err(MemoryError::EntryNotFound { id });
        }
        proof {
            lemma_pairs_map_at(ep, i as int);
            lemma_pairs_map_remove(ep, i as int);
        }
        let ghost before = self.entries@;
        let entry = self.entries.remove(i);
        assert(entry_pairs(self.entries@) =~= ep.remove(i as int));
        proof {
            assert forall|a: int| 0 <= a < self.entries@.len() implies #[trigger] self.entries@[
                a
            ].view_of().id == self.entries@[a].id.0 by {
                let a0 = if a < i { a } else { a + 1 };
                assert(self.entries@[a] == before[a0]);
            }
            let np = entry_pairs(self.entries@);
            assert forall|a: int, b: int| 0 <= a < b < np.len() implies np[a].0 != np[b].0 by {
                let a0 = if a < i { a } else { a + 1 };
                let b0 = if b < i { b } else { b + 1 };
                assert(np[a] == ep[a0]);
                assert(np[b] == ep[b0]);
            }
            self.vector_index.lemma_finite();
        }
        self.bm25_index.remove(id);
        self.vector_index.remove(id);
        match &entry.file_path {
            Some(path) => {
                self.forget_path(path.as_str());
            },
            None => {},
        }
        proof {
            assert(indexed_docs(self.view().entries) =~= indexed_docs(old_view.entries).remove(
                id.0,
            ));
            assert(self.vector_index.documents().dom() =~= old(self).vector_index.documents().dom().remove(id.0));
        }
        Ok(())
    }

    /// Forgets the entry recorded for `path`, if any.
    fn forget_path(&mut self, path: &str)
        requires
            distinct_keys(path_pairs(old(self).path_index@)),
        ensures
            distinct_keys(path_pairs(final(self).path_index@)),
            pairs_map(path_pairs(final(self).path_index@)) == pairs_map(
                path_pairs(old(self).path_index@),
            ).remove(path@),
            final(self).entries == old(self).entries,
            final(self).bm25_index == old(self).bm25_index,
            final(self).vector_index == old(self).vector_index,
            final(self).next_memory_id == old(self).next_memory_id,
            final(self).config == old(self).config,
    {
        let ghost pv = path_pairs(self.path_index@);
        let mut i: usize = 0;
        while i < self.path_index.len() && !str_eq(self.path_index[i].0.as_str(), path)
            invariant
                i <= self.path_index@.len(),
                pv == path_pairs(self.path_index@),
                forall|a: int| 0 <= a < i ==> pv[a].0 != path@,
            decreases self.path_index@.len() - i,
        {
            i = i + 1;
        }
        if i < self.path_index.len() {
            self.path_index.remove(i);
            proof {
                assert(path_pairs(self.path_index@) =~= pv.remove(i as int));
                lemma_pairs_map_remove(pv, i as int);
                let np = path_pairs(self.path_index@);
                assert forall|a: int, b: int| 0 <= a < b < np.len() implies np[a].0 != np[b].0 by {
                    let a0 = if a < i { a } else { a + 1 };
                    let b0 = if b < i { b } else { b + 1 };
                    assert(np[a] == pv[a0]);
                    assert(np[b] == pv[b0]);
                }
            }
        } else {
            proof {
                lemma_pairs_map_dom(pv, path@);
                assert(pairs_map(pv).remove(path@) =~= pairs_map(pv));
            }
        }
    }

    /// The identifier recorded for `path`, if any.
    pub fn path_id(&self, path: &str) -> (r: Option<MemoryId>)
        requires
            self.wf(),
        ensures
            self.view().paths.contains_key(path@) ==> r == Some(
                MemoryId(self.view().paths[path@]),
            ),
            !self.view().paths.contains_key(path@) ==> r is None,
    {
        let ghost pv = path_pairs(self.path_index@);
        let mut i: usize = 0;
        while i < self.path_index.len()
            invariant
                i <= self.path_index@.len(),
                pv == path_pairs(self.path_index@),
                self.wf(),
                forall|a: int| 0 <= a < i ==> pv[a].0 != path@,
            decreases self.path_index@.len() - i,
        {
            if str_eq(self.path_index[i].0.as_str(), path) {
                proof {
                    lemma_pairs_map_at(pv, i as int);
                }
                return Some(self.path_index[i].1);
            }
            i = i + 1;
        }
        proof {
            lemma_pairs_map_dom(pv, path@);
        }
        None
    }

    /// Stores parsed notes one after another: a note whose path is already
    /// recorded replaces the entry under that path's identifier, any other gets
    /// a fresh identifier. Returns how many notes were stored.
    pub fn index_vault(&mut self, notes: Vec<ParsedMarkdown>) -> (r: Result<usize, MemoryError>)
        requires
            old(self).wf(),
            old(self).keyword_view().token_total() + note_tokens(notes@) <= usize::MAX,
            old(self).vector_view().documents().dom().len() + notes@.len() < usize::MAX,
        ensures
            final(self).wf(),
            r == Ok::<usize, MemoryError>(notes@.len() as usize),
            final(self).view() == absorb_notes(old(self).view(), notes@),
    {
        let mut count: usize = 0;
        let mut k: usize = 0;
        assert(notes@.take(0) =~= Seq::<ParsedMarkdown>::empty());
        while k < notes.len()
            invariant
                k <= notes@.len(),
                count == k,
                self.wf(),
                self.view() == absorb_notes(old(self).view(), notes@.take(k as int)),
                self.keyword_view().token_total() <= old(self).keyword_view().token_total()
                    + note_tokens(notes@.take(k as int)),
                self.vector_view().documents().dom().len() <= old(self).vector_view().documents().dom().len() + k,
                old(self).keyword_view().token_total() + note_tokens(notes@) <= usize::MAX,
                old(self).vector_view().documents().dom().len() + notes@.len() < usize::MAX,
            decreases notes@.len() - k,
        {
            let note = &notes[k];
            let existing = self.path_id(note.file_path.as_str());
            let entry = MemoryEntry {
                id: match existing {
                    Some(i) => i,
                    None => MemoryId(0),
                },
                title: owned(note.title.as_str()),
                content: owned(note.content.as_str()),
                tags: copy_texts(&note.tags),
                file_path: Some(owned(note.file_path.as_str())),
            };
            let ghost st = self.view();
            assert(entry.view_of() == note_entry(st, notes@[k as int]));
            proof {
                lemma_note_tokens_prefix(notes@, k as int);
                assert(full_text(note_entry(st, notes@[k as int])) == full_text(
                    note_entry(
                        StoreView { entries: Map::empty(), paths: Map::empty(), next_id: 0 },
                        notes@[k as int],
                    ),
                ));
            }
            let _ = self.store(entry);
            assert(notes@.take(k + 1).drop_last() =~= notes@.take(k as int));
            assert(notes@.take(k + 1).last() == notes@[k as int]);
            count = count + 1;
            k = k + 1;
        }
        assert(notes@.take(k as int) =~= notes@);
        Ok(count)
    }

    /// The number of stored entries.
    pub fn count(&self) -> (r: Result<usize, MemoryError>)
        requires
            self.wf(),
        ensures
            self.view().entries.dom().finite(),
            self.view().entries.dom().len() <= usize::MAX,
            r == Ok::<usize, MemoryError>(self.view().entries.dom().len() as usize),
    {
        let n = self.entries.len();
        proof {
            lemma_pairs_map_len(entry_pairs(self.entries@));
        }
        Ok(n)
    }

    /// A well-formed store holds finitely many entries.
    pub proof fn lemma_entries_finite(&self)
        requires
            self.wf(),
        ensures
            self.view().entries.dom().finite(),
    {
        lemma_pairs_map_len(entry_pairs(self.entries@));
    }
}

/// The token counts of a prefix of the notes add up to at most those of all.
proof fn lemma_note_tokens_prefix(notes: Seq<ParsedMarkdown>, k: int)
    requires
        0 <= k < notes.len(),
    ensures
        note_tokens(notes.take(k + 1)) <= note_tokens(notes),
        note_tokens(notes.take(k + 1)) == note_tokens(notes.take(k)) + tokens_of(
            full_text(
                note_entry(
                    StoreView { entries: Map::empty(), paths: Map::empty(), next_id: 0 },
                    notes[k],
                ),
            ),
        ).len(),
    decreases notes.len(),
{
    assert(notes.take(k + 1).drop_last() =~= notes.take(k));
    if k + 1 < notes.len() {
        assert(notes.drop_last().take(k + 1) =~= notes.take(k + 1));
        assert(notes.drop_last()[k] == notes[k]);
        lemma_note_tokens_prefix(notes.drop_last(), k);
    } else {
        assert(notes.take(k + 1) =~= notes);
    }
}

/// Copies a list of strings.
fn copy_texts(v: &Vec<String>) -> (r: Vec<String>)
    ensures
        texts(r@) == texts(v@),
{
    let mut r: Vec<String> = Vec::new();
    let mut i: usize = 0;
    while i < v.len()
        invariant
            i <= v@.len(),
            texts(r@) == texts(v@).take(i as int),
        decreases v@.len() - i,
    {
        let s = owned(v[i].as_str());
        let ghost before = r@;
        r.push(s);
        assert(texts(r@) =~= texts(before).push(s@));
        assert(texts(v@).take(i + 1) =~= texts(v@).take(i as int).push(v@[i as int]@));
        i = i + 1;
    }
    assert(texts(v@).take(v@.len() as int) =~= texts(v@));
    r
}

} // verus!
