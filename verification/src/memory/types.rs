//! Identifiers, entries, filters and errors of the memory store.
use crate::text::{decimal, join2, owned, u64_to_decimal};
use vstd::prelude::*;

verus! {

/// Unique identifier for a memory entry. `MemoryId(0)` asks the store to assign
/// a fresh identifier.
#[derive(Clone, Copy, Debug, PartialEq, Eq, PartialOrd, Ord, Hash)]
pub struct MemoryId(pub u64);

/// A single document or note in memory.
#[derive(Clone, Debug, PartialEq, Eq)]
pub struct MemoryEntry {
    pub id: MemoryId,
    pub title: String,
    pub content: String,
    pub tags: Vec<String>,
    pub file_path: Option<String>,
}

/// The texts of a list of strings.
pub open spec fn texts(v: Seq<String>) -> Seq<Seq<char>> {
    v.map_values(|s: String| s@)
}

/// The text of an optional string.
pub open spec fn opt_text(o: Option<String>) -> Option<Seq<char>> {
    match o {
        Some(s) => Some(s@),
        None => None,
    }
}

/// An entry as plain values: identifier, title, content, tags and file path.
pub struct EntryView {
    pub id: u64,
    pub title: Seq<char>,
    pub content: Seq<char>,
    pub tags: Seq<Seq<char>>,
    pub file_path: Option<Seq<char>>,
}

impl MemoryEntry {
    /// The entry as plain values.
    pub open spec fn view_of(&self) -> EntryView {
        EntryView {
            id: self.id.0,
            title: self.title@,
            content: self.content@,
            tags: texts(self.tags@),
            file_path: opt_text(self.file_path),
        }
    }

    /// Copies the entry, field by field.
    pub fn duplicate(&self) -> (r: MemoryEntry)
        ensures
            r.view_of() == self.view_of(),
    {
        let mut tags: Vec<String> = Vec::new();
        let mut i: usize = 0;
        while i < self.tags.len()
            invariant
                i <= self.tags@.len(),
                texts(tags@) == texts(self.tags@).take(i as int),
            decreases self.tags@.len() - i,
        {
            let t = owned(self.tags[i].as_str());
            let ghost before = tags@;
            tags.push(t);
            assert(tags@ == before.push(t));
            assert(texts(tags@) =~= texts(before).push(t@));
            assert(texts(self.tags@).take(i + 1) =~= texts(self.tags@).take(i as int).push(
                self.tags@[i as int]@,
            ));
            i = i + 1;
        }
        assert(texts(self.tags@).take(self.tags@.len() as int) =~= texts(self.tags@));
        let file_path = match &self.file_path {
            Some(p) => Some(owned(p.as_str())),
            None => None,
        };
        MemoryEntry {
            id: self.id,
            title: owned(self.title.as_str()),
            content: owned(self.content.as_str()),
            tags,
            file_path,
        }
    }
}

/// Filter options for querying the memory store.
#[derive(Clone, Debug, PartialEq, Eq)]
pub struct QueryFilter {
    pub tags: Vec<String>,
    pub path_prefix: Option<String>,
    pub limit: usize,
}

impl Default for QueryFilter {
    /// No tag or path restriction and at most ten results.
    fn default() -> (f: Self)
        ensures
            f.tags@.len() == 0,
            f.path_prefix is None,
            f.limit == 10,
    {
        QueryFilter { tags: Vec::new(), path_prefix: None, limit: 10 }
    }
}

/// Whether a filter lets an entry through: when tags are given the entry carries
/// at least one of them, and when a path prefix is given the entry has a file
/// path that starts with it.
pub open spec fn filter_admits(filter_tags: Seq<Seq<char>>, prefix: Option<Seq<char>>, entry: EntryView) -> bool {
    &&& (filter_tags.len() == 0 || exists|i: int|
        0 <= i < filter_tags.len() && entry.tags.contains(#[trigger] filter_tags[i]))
    &&& match prefix {
        None => true,
        Some(p) => entry.file_path matches Some(path) && p.is_prefix_of(path),
    }
}

/// A filter that lists tags admits, when it sets no path prefix, every entry that
/// carries at least one of them.
pub proof fn law_filter_any_tag(filter_tags: Seq<Seq<char>>, entry: EntryView, i: int)
    requires
        0 <= i < filter_tags.len(),
        entry.tags.contains(filter_tags[i]),
    ensures
        filter_admits(filter_tags, None, entry),
{
}

/// A filter that lists tags refuses every entry that carries none of them,
/// whatever its path prefix.
pub proof fn law_filter_needs_a_tag(
    filter_tags: Seq<Seq<char>>,
    prefix: Option<Seq<char>>,
    entry: EntryView,
)
    requires
        filter_tags.len() > 0,
        forall|i: int| 0 <= i < filter_tags.len() ==> !entry.tags.contains(#[trigger] filter_tags[i]),
    ensures
        !filter_admits(filter_tags, prefix, entry),
{
}

/// A filter without tags or prefix admits every entry; a path prefix further
/// requires the entry to have a file path that starts with it.
pub proof fn law_filter_prefix(filter_tags: Seq<Seq<char>>, p: Seq<char>, entry: EntryView)
    ensures
        filter_admits(Seq::<Seq<char>>::empty(), None, entry),
        filter_admits(filter_tags, Some(p), entry) <==> (filter_admits(filter_tags, None, entry)
            && entry.file_path is Some && p.is_prefix_of(entry.file_path->0)),
{
}

/// Whether `needle` occurs in `hay`.
pub(crate) fn contains_text(hay: &Vec<String>, needle: &str) -> (r: bool)
    ensures
        r == texts(hay@).contains(needle@),
{
    let mut i: usize = 0;
    while i < hay.len()
        invariant
            i <= hay@.len(),
            forall|k: int| 0 <= k < i ==> hay@[k]@ != needle@,
        decreases hay@.len() - i,
    {
        if crate::text::str_eq(hay[i].as_str(), needle) {
            assert(texts(hay@)[i as int] == needle@);
            return true;
        }
        i = i + 1;
    }
    proof {
        if texts(hay@).contains(needle@) {
            let k = choose|k: int| 0 <= k < texts(hay@).len() && texts(hay@)[k] == needle@;
            assert(hay@[k]@ == needle@);
        }
    }
    false
}

/// Whether `p` is a prefix of `s`.
fn starts_with_text(s: &str, p: &str) -> (r: bool)
    ensures
        r == p@.is_prefix_of(s@),
{
    let sc = crate::text::chars_of(s);
    let pc = crate::text::chars_of(p);
    if pc.len() > sc.len() {
        return false;
    }
    let mut i: usize = 0;
    while i < pc.len()
        invariant
            i <= pc@.len() <= sc@.len(),
            sc@ == s@,
            pc@ == p@,
            forall|k: int| 0 <= k < i ==> pc@[k] == sc@[k],
        decreases pc@.len() - i,
    {
        if pc[i] != sc[i] {
            assert(sc@.subrange(0, pc@.len() as int)[i as int] != pc@[i as int]);
            return false;
        }
        i = i + 1;
    }
    assert(pc@ =~= sc@.subrange(0, pc@.len() as int));
    true
}

impl QueryFilter {
    /// Whether the filter lets `entry` through.
    pub fn admits(&self, entry: &MemoryEntry) -> (r: bool)
        ensures
            r == filter_admits(texts(self.tags@), opt_text(self.path_prefix), entry.view_of()),
    {
        let mut tag_ok = self.tags.len() == 0;
        let mut i: usize = 0;
        while i < self.tags.len() && !tag_ok
            invariant
                i <= self.tags@.len(),
                tag_ok ==> (self.tags@.len() == 0 || exists|k: int|
                    0 <= k < self.tags@.len() && texts(entry.tags@).contains(
                        #[trigger] texts(self.tags@)[k],
                    )),
                !tag_ok ==> self.tags@.len() > 0 && forall|k: int|
                    0 <= k < i ==> !texts(entry.tags@).contains(#[trigger] texts(self.tags@)[k]),
            decreases self.tags@.len() - i,
        {
            if contains_text(&entry.tags, self.tags[i].as_str()) {
                assert(texts(self.tags@)[i as int] == self.tags@[i as int]@);
                tag_ok = true;
            }
            i = i + 1;
        }
        if !tag_ok {
            return false;
        }
        match &self.path_prefix {
            None => true,
            Some(p) => match &entry.file_path {
                Some(path) => starts_with_text(path.as_str(), p.as_str()),
                None => false,
            },
        }
    }
}

/// Indicates the matching algorithm used for a search result.
#[derive(Clone, Copy, Debug, PartialEq, Eq)]
pub enum SearchMatchType {
    Bm25,
    Vector,
    Hybrid,
}

/// How a result was matched: by both indices, by keywords alone, or by vector
/// similarity alone.
pub fn match_type_of(keyword_hit: bool, vector_hit: bool) -> (m: SearchMatchType)
    ensures
        keyword_hit && vector_hit ==> m == SearchMatchType::Hybrid,
        keyword_hit && !vector_hit ==> m == SearchMatchType::Bm25,
        !keyword_hit ==> m == SearchMatchType::Vector,
{
    if keyword_hit && vector_hit {
        SearchMatchType::Hybrid
    } else if keyword_hit {
        SearchMatchType::Bm25
    } else {
        SearchMatchType::Vector
    }
}

/// Configuration parameters for the memory store.
#[derive(Clone, Debug, PartialEq, Eq)]
pub struct MemoryConfig {
    pub enabled: bool,
    pub storage_path: String,
}

impl Default for MemoryConfig {
    /// Enabled, with the vault at `./vault`.
    fn default() -> (c: Self)
        ensures
            c.enabled,
            c.storage_path@ == "./vault"@,
    {
        MemoryConfig { enabled: true, storage_path: owned("./vault") }
    }
}

/// Errors produced by the memory package.
#[derive(Clone, Debug, PartialEq, Eq)]
pub enum MemoryError {
    EntryNotFound { id: MemoryId },
    VaultNotFound { path: String },
    IndexCorrupted { message: String },
    ConfigError { message: String },
    IoError { message: String },
    LockError { message: String },
}

/// The text of a [`MemoryError`].
pub open spec fn memory_error_text(e: MemoryError) -> Seq<char> {
    match e {
        MemoryError::EntryNotFound { id } => "Memory entry not found: "@ + decimal(id.0 as nat),
        MemoryError::VaultNotFound { path } => "Memory vault path not found: "@ + path@,
        MemoryError::IndexCorrupted { message } => "Memory index corrupted: "@ + message@,
        MemoryError::ConfigError { message } => "Memory store configuration error: "@ + message@,
        MemoryError::IoError { message } => "Memory store I/O error: "@ + message@,
        MemoryError::LockError { message } => "Memory store lock error: "@ + message@,
    }
}

impl MemoryError {
    /// Renders the error as text.
    pub fn to_string(&self) -> (s: String)
        ensures
            s@ == memory_error_text(*self),
    {
        match self {
            MemoryError::EntryNotFound { id } => {
                let n = u64_to_decimal(id.0);
                join2("Memory entry not found: ", n.as_str())
            },
            MemoryError::VaultNotFound { path } => join2(
                "Memory vault path not found: ",
                path.as_str(),
            ),
            MemoryError::IndexCorrupted { message } => join2(
                "Memory index corrupted: ",
                message.as_str(),
            ),
            MemoryError::ConfigError { message } => join2(
                "Memory store configuration error: ",
                message.as_str(),
            ),
            MemoryError::IoError { message } => join2("Memory store I/O error: ", message.as_str()),
            MemoryError::LockError { message } => join2(
                "Memory store lock error: ",
                message.as_str(),
            ),
        }
    }
}

} // verus!
