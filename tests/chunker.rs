use llama_rag::chunker::{chunk_document, is_txt_path, ChunkError, Chunker};

const PARIS_DOC: &str = "Paris is the capital of France. It is known for the Eiffel Tower.";

fn non_ws(s: &str) -> String {
    s.chars().filter(|c| !c.is_whitespace()).collect()
}

#[test]
fn paris_document_is_one_chunk() {
    let chunks = chunk_document("paris.txt", PARIS_DOC, 100).unwrap();
    assert_eq!(chunks, vec![PARIS_DOC.to_string()]);
}

#[test]
fn only_txt_paths_are_accepted() {
    assert!(is_txt_path("paris.txt"));
    assert!(is_txt_path("dir.d/notes.txt"));
    assert!(is_txt_path("..txt"));
    assert!(!is_txt_path(".txt"));
    assert!(!is_txt_path("dir/.txt"));
    assert!(!is_txt_path("notes.md"));
    assert!(!is_txt_path("notes.txt/x"));
    assert!(!is_txt_path("txt"));
    assert_eq!(chunk_document("notes.md", PARIS_DOC, 100), Err(ChunkError::UnsupportedFormat));
}

#[test]
fn chunks_are_trimmed_bounded_and_lossless() {
    let mut doc = String::new();
    for i in 0..60 {
        doc.push_str(&format!("Sentence number {} talks about the river Seine and its bridges. ", i));
        if i % 7 == 0 {
            doc.push_str("\n\n");
        }
    }
    let budget = 20;
    let chunks = chunk_document("long.txt", &doc, budget).unwrap();
    assert!(chunks.len() > 5);
    let bpe = tiktoken_rs::cl100k_base().unwrap();
    for c in &chunks {
        assert!(!c.is_empty());
        assert_eq!(c.trim(), c);
        assert!(bpe.encode_ordinary(c).len() <= budget);
    }
    assert_eq!(non_ws(&chunks.concat()), non_ws(&doc));
}

#[test]
fn empty_or_blank_text_has_no_chunks() {
    let c = Chunker::cl100k();
    assert_eq!(c.chunk_text("", 10), Ok(Vec::<String>::new()));
    assert_eq!(c.chunk_text("   \n\n  ", 10), Ok(Vec::<String>::new()));
}

#[test]
fn text_that_cannot_be_cut_finer_is_over_budget() {
    let c = Chunker::cl100k();
    // a single character that takes several tokens
    let r = c.chunk_text("\u{1F9EC}", 1);
    assert_eq!(r, Err(ChunkError::OverBudget { index: 0 }));
}

#[test]
fn same_text_gives_same_chunks() {
    let doc = "One line.\n\nAnother paragraph with a few more words in it.";
    let a = chunk_document("a.txt", doc, 5);
    let b = chunk_document("b.txt", doc, 5);
    assert_eq!(a, b);
    let chunks = a.unwrap();
    assert!(chunks.len() > 1);
    assert_eq!(non_ws(&chunks.concat()), non_ws(doc));
}

#[test]
fn blank_document_has_no_chunks_and_text_has_some() {
    assert_eq!(chunk_document("b.txt", " \n\t ", 10), Ok(Vec::<String>::new()));
    assert_eq!(chunk_document("b.txt", "  x  ", 10), Ok(vec!["x".to_string()]));
}
