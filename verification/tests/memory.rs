use naina::memory::bm25::Bm25Index;
use naina::memory::indexer::{ParsedMarkdown, VaultIndexer};
use naina::memory::store::MemoryStore;
use naina::memory::types::{
    match_type_of, MemoryConfig, MemoryEntry, MemoryError, MemoryId, QueryFilter, SearchMatchType,
};
use naina::memory::vector::SparseVectorIndex;

fn sample_entry(title: &str, content: &str, tags: Vec<&str>) -> MemoryEntry {
    MemoryEntry {
        id: MemoryId(0),
        title: title.to_string(),
        content: content.to_string(),
        tags: tags.into_iter().map(|s| s.to_string()).collect(),
        file_path: None,
    }
}

fn note(title: &str, content: &str, path: &str) -> ParsedMarkdown {
    ParsedMarkdown {
        title: title.to_string(),
        content: content.to_string(),
        tags: vec![],
        file_path: path.to_string(),
    }
}

#[test]
fn test_memory_store_instantiation() {
    let store = MemoryStore::new(MemoryConfig::default());
    assert!(format!("{:?}", store).contains("MemoryStore"));
}

#[test]
fn store_construction_keeps_its_configuration() {
    let config = MemoryConfig {
        enabled: true,
        storage_path: "./test_vault".to_string(),
    };
    let store = MemoryStore::new(config);
    assert_eq!(store.count().unwrap(), 0);
    assert_eq!(store.config().storage_path, "./test_vault");
}

#[test]
fn test_02_store_and_get() {
    let mut store = MemoryStore::new(MemoryConfig::default());
    let entry = sample_entry(
        "Rust Architecture",
        "Microkernel design pattern",
        vec!["rust", "architecture"],
    );

    let id = store.store(entry).unwrap();
    assert_eq!(id.0, 1);

    let retrieved = store.get(id).unwrap();
    assert_eq!(retrieved.title, "Rust Architecture");
    assert_eq!(retrieved.content, "Microkernel design pattern");
    assert_eq!(retrieved.tags, vec!["rust", "architecture"]);
}

#[test]
fn test_03_memory_id_generation() {
    let mut store = MemoryStore::new(MemoryConfig::default());
    let id1 = store
        .store(sample_entry("Doc 1", "Content 1", vec![]))
        .unwrap();
    let id2 = store
        .store(sample_entry("Doc 2", "Content 2", vec![]))
        .unwrap();

    assert_eq!(id1.0, 1);
    assert_eq!(id2.0, 2);
}

#[test]
fn test_04_delete() {
    let mut store = MemoryStore::new(MemoryConfig::default());
    let id = store
        .store(sample_entry("To Delete", "Transient data", vec![]))
        .unwrap();

    assert_eq!(store.count().unwrap(), 1);
    assert!(store.delete(id).is_ok());
    assert_eq!(store.count().unwrap(), 0);

    let err = store.get(id).unwrap_err();
    assert!(matches!(err, MemoryError::EntryNotFound { .. }));
}

#[test]
fn test_05_missing_entry() {
    let mut store = MemoryStore::new(MemoryConfig::default());
    let err = store.get(MemoryId(999)).unwrap_err();
    assert!(matches!(err, MemoryError::EntryNotFound { .. }));

    let del_err = store.delete(MemoryId(999)).unwrap_err();
    assert!(matches!(del_err, MemoryError::EntryNotFound { .. }));
}

#[test]
fn markdown_title_and_tags_are_read_from_the_text() {
    let content = "# System Architecture\n\nThis is a microkernel system. #system #rust\n";
    let parsed = VaultIndexer::parse_content(content.to_string(), "/vault/architecture.md".to_string());
    assert_eq!(parsed.title, "System Architecture");
    assert!(parsed.tags.contains(&"system".to_string()));
    assert!(parsed.tags.contains(&"rust".to_string()));
    assert_eq!(parsed.content, content);
}

#[test]
fn title_falls_back_to_the_file_stem_then_to_untitled() {
    assert_eq!(
        VaultIndexer::extract_title("no heading here\n#not a heading", "/vault/notes/plan.md"),
        "plan"
    );
    assert_eq!(
        VaultIndexer::extract_title("#   \n#  \n", ""),
        "Untitled Document"
    );
    assert_eq!(
        VaultIndexer::extract_title("intro\r\n   #   Spaced Title  \r\n# Later", "x.md"),
        "Spaced Title"
    );
}

#[test]
fn tags_are_stripped_lowercased_and_deduplicated() {
    let tags = VaultIndexer::extract_tags("#Rust, and #rust! #my_tag-1. # #!! #Go");
    assert_eq!(tags, vec!["rust", "my_tag-1", "go"]);
}

#[test]
fn markdown_extension_ignores_case() {
    assert!(VaultIndexer::is_markdown_extension("md"));
    assert!(VaultIndexer::is_markdown_extension("MD"));
    assert!(VaultIndexer::is_markdown_extension("mD"));
    assert!(!VaultIndexer::is_markdown_extension("mdx"));
    assert!(!VaultIndexer::is_markdown_extension("txt"));
}

#[test]
fn index_vault_reuses_identifiers_of_known_paths() {
    let mut store = MemoryStore::new(MemoryConfig::default());
    let n = store
        .index_vault(vec![
            note("A", "alpha text", "/v/a.md"),
            note("B", "beta text", "/v/b.md"),
        ])
        .unwrap();
    assert_eq!(n, 2);
    assert_eq!(store.count().unwrap(), 2);
    assert_eq!(store.path_id("/v/a.md"), Some(MemoryId(1)));

    let n = store
        .index_vault(vec![note("A2", "alpha again", "/v/a.md")])
        .unwrap();
    assert_eq!(n, 1);
    assert_eq!(store.count().unwrap(), 2);
    assert_eq!(store.get(MemoryId(1)).unwrap().title, "A2");
    assert_eq!(store.get(MemoryId(1)).unwrap().file_path, Some("/v/a.md".to_string()));
}

#[test]
fn deleting_an_entry_forgets_its_path_and_index_terms() {
    let mut store = MemoryStore::new(MemoryConfig::default());
    store
        .index_vault(vec![note("Kernel", "supervisor design", "/v/k.md")])
        .unwrap();
    assert_eq!(store.keyword_index().postings("supervisor").len(), 1);
    store.delete(MemoryId(1)).unwrap();
    assert_eq!(store.path_id("/v/k.md"), None);
    assert!(store.keyword_index().postings("supervisor").is_empty());
    assert_eq!(store.vector_index().term_doc_count("supervisor"), 0);
    assert_eq!(store.keyword_index().total_tokens(), 0);
}

#[test]
fn explicit_identifier_replaces_the_stored_entry() {
    let mut store = MemoryStore::new(MemoryConfig::default());
    let mut e = sample_entry("First", "one", vec![]);
    e.id = MemoryId(7);
    assert_eq!(store.store(e).unwrap(), MemoryId(7));
    let mut e = sample_entry("Second", "two", vec![]);
    e.id = MemoryId(7);
    store.store(e).unwrap();
    assert_eq!(store.count().unwrap(), 1);
    assert_eq!(store.get(MemoryId(7)).unwrap().title, "Second");
    let fresh = store.store(sample_entry("Third", "three", vec![])).unwrap();
    assert_eq!(fresh, MemoryId(1));
}

#[test]
fn tokenize_splits_on_non_alphanumerics_and_lowercases() {
    assert_eq!(
        Bm25Index::tokenize("Hello, World! BM25-search__x"),
        vec!["hello", "world", "bm25", "search", "x"]
    );
    assert!(Bm25Index::tokenize("  ,;; ").is_empty());
}

#[test]
fn keyword_index_counts_terms_per_document() {
    let mut ix = Bm25Index::new();
    ix.index(MemoryId(1), "alpha beta alpha");
    ix.index(MemoryId(2), "beta gamma");
    assert_eq!(ix.document_count(), 2);
    assert_eq!(ix.total_tokens(), 5);
    assert_eq!(ix.term_frequency("alpha", MemoryId(1)), 2);
    assert_eq!(ix.term_frequency("alpha", MemoryId(2)), 0);
    assert_eq!(ix.doc_length(MemoryId(2)), Some(2));
    let mut p = ix.postings("beta");
    p.sort();
    assert_eq!(p, vec![(MemoryId(1), 1), (MemoryId(2), 1)]);

    ix.index(MemoryId(1), "delta");
    assert_eq!(ix.total_tokens(), 3);
    assert_eq!(ix.term_frequency("alpha", MemoryId(1)), 0);
    ix.index(MemoryId(2), "!!!");
    assert_eq!(ix.document_count(), 1);
    assert_eq!(ix.doc_length(MemoryId(2)), None);
    ix.remove(MemoryId(1));
    assert_eq!(ix.document_count(), 0);
    assert_eq!(ix.total_tokens(), 0);
}

#[test]
fn vector_index_tracks_document_frequencies() {
    let mut ix = SparseVectorIndex::new();
    ix.index(MemoryId(1), "red green red");
    ix.index(MemoryId(2), "green blue");
    assert_eq!(ix.document_count(), 2);
    assert_eq!(ix.term_doc_count("green"), 2);
    assert_eq!(ix.term_doc_count("red"), 1);
    assert_eq!(ix.doc_token_count(MemoryId(1)), Some(3));
    let mut terms = ix.terms_of(MemoryId(1));
    terms.sort();
    assert_eq!(terms, vec![("green".to_string(), 1), ("red".to_string(), 2)]);
    ix.remove(MemoryId(2));
    assert_eq!(ix.term_doc_count("green"), 1);
    assert_eq!(ix.term_doc_count("blue"), 0);
    assert_eq!(ix.document_ids(), vec![MemoryId(1)]);
}

#[test]
fn query_filter_requires_a_tag_and_the_path_prefix() {
    let mut e = sample_entry("Note 1", "Contains target keyword", vec!["tag_a"]);
    e.file_path = Some("/vault/folder1/note1.md".to_string());
    let filter = QueryFilter {
        tags: vec!["tag_a".to_string()],
        path_prefix: Some("/vault/folder1".to_string()),
        limit: 10,
    };
    assert!(filter.admits(&e));
    e.tags = vec!["tag_b".to_string()];
    assert!(!filter.admits(&e));
    e.tags = vec!["tag_a".to_string()];
    e.file_path = None;
    assert!(!filter.admits(&e));
    assert!(QueryFilter::default().admits(&e));
    assert_eq!(QueryFilter::default().limit, 10);
}

#[test]
fn match_type_reflects_which_index_matched() {
    assert_eq!(match_type_of(true, true), SearchMatchType::Hybrid);
    assert_eq!(match_type_of(true, false), SearchMatchType::Bm25);
    assert_eq!(match_type_of(false, true), SearchMatchType::Vector);
}

#[test]
fn memory_error_texts() {
    assert_eq!(
        MemoryError::EntryNotFound { id: MemoryId(42) }.to_string(),
        "Memory entry not found: 42"
    );
    assert_eq!(
        MemoryError::VaultNotFound {
            path: "./x".to_string()
        }
        .to_string(),
        "Memory vault path not found: ./x"
    );
}

#[test]
fn matching_documents_lists_each_document_sharing_a_token_once() {
    let mut ix = Bm25Index::new();
    ix.index(MemoryId(1), "alpha beta");
    ix.index(MemoryId(2), "beta gamma");
    ix.index(MemoryId(3), "delta");
    let mut found = ix.matching_documents("Beta alpha beta");
    found.sort();
    assert_eq!(found, vec![MemoryId(1), MemoryId(2)]);
    assert!(ix.matching_documents("omega").is_empty());
}

#[test]
fn removing_right_after_indexing_restores_the_statistics() {
    let mut ix = Bm25Index::new();
    ix.index(MemoryId(1), "alpha beta");
    let (docs, tokens) = (ix.document_count(), ix.total_tokens());
    ix.index(MemoryId(2), "gamma delta epsilon");
    ix.remove(MemoryId(2));
    assert_eq!(ix.document_count(), docs);
    assert_eq!(ix.total_tokens(), tokens);
    assert_eq!(ix.doc_length(MemoryId(2)), None);
    assert_eq!(ix.term_frequency("alpha", MemoryId(1)), 1);
}

#[test]
fn indexing_the_same_notes_twice_keeps_the_count() {
    let mut store = MemoryStore::new(MemoryConfig::default());
    let notes = || {
        vec![
            note("A", "alpha text", "/v/a.md"),
            note("B", "beta text", "/v/b.md"),
        ]
    };
    assert_eq!(store.index_vault(notes()).unwrap(), 2);
    assert_eq!(store.count().unwrap(), 2);
    assert_eq!(store.index_vault(notes()).unwrap(), 2);
    assert_eq!(store.count().unwrap(), 2);
    assert_eq!(store.path_id("/v/b.md"), Some(MemoryId(2)));
}

#[test]
fn reindexing_a_document_replaces_its_text() {
    let mut ix = Bm25Index::new();
    ix.index(MemoryId(1), "alpha beta");
    ix.index(MemoryId(1), "gamma");
    assert_eq!(ix.term_frequency("alpha", MemoryId(1)), 0);
    assert_eq!(ix.term_frequency("gamma", MemoryId(1)), 1);
    assert_eq!(ix.total_tokens(), 1);
    ix.index(MemoryId(1), "!!");
    assert_eq!(ix.document_count(), 0);
    assert!(ix.matching_documents("gamma").is_empty());
}
