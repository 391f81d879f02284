use project_e::knowledge::{chunk_text, knowledge_path, relative_knowledge_path, PATH_PREFIX};

#[test]
fn chunk_empty_text() {
    assert!(chunk_text("", 100, 20).is_empty());
}

#[test]
fn chunk_short_text() {
    let chunks = chunk_text("hello world", 100, 20);
    assert_eq!(chunks.len(), 1);
    assert_eq!(chunks[0], "hello world");
}

#[test]
fn chunk_with_overlap() {
    let text = (0..20).map(|i| format!("word{i}")).collect::<Vec<_>>().join(" ");
    let chunks = chunk_text(&text, 10, 3);

    assert!(chunks.len() >= 2);
    let chunk0_words: Vec<&str> = chunks[0].split_whitespace().collect();
    let chunk1_words: Vec<&str> = chunks[1].split_whitespace().collect();
    assert_eq!(chunk0_words[7..10], chunk1_words[0..3]);
}

#[test]
fn chunk_windows_are_exact() {
    let text = (0..20).map(|i| format!("w{i}")).collect::<Vec<_>>().join(" ");
    let chunks = chunk_text(&text, 10, 3);
    // Windows start every 7 words: 0, 7, 14.
    assert_eq!(chunks.len(), 3);
    assert_eq!(chunks[1], "w7 w8 w9 w10 w11 w12 w13 w14 w15 w16");
    assert_eq!(chunks[2], "w14 w15 w16 w17 w18 w19");
}

#[test]
fn chunk_edge_cases() {
    assert!(chunk_text("   \n\t ", 10, 2).is_empty());
    assert!(chunk_text("a b c", 0, 0).is_empty());
    // Overlap at least the chunk size still advances one word at a time.
    assert_eq!(chunk_text("a b c", 2, 5), vec!["a b", "b c"]);
    assert_eq!(chunk_text("  a\tb\n c ", 10, 0), vec!["a b c"]);
}

#[test]
fn knowledge_paths_round_trip() {
    assert_eq!(PATH_PREFIX, "project_e/knowledge");
    let full = knowledge_path("notes/a.md");
    assert_eq!(full, "project_e/knowledge/notes/a.md");
    assert_eq!(relative_knowledge_path(&full).as_deref(), Some("notes/a.md"));
    assert_eq!(relative_knowledge_path("other/notes.md"), None);
    assert_eq!(relative_knowledge_path("project_e/knowledgebase.md").as_deref(), Some("project_e/knowledgebase.md"));
}
