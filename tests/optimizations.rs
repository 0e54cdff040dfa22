use moon_reader::optimizations::{FileProcessor, QueryOptimizer};

#[test]
fn test_query_optimizer() {
    let query = QueryOptimizer::optimized_knowledge_bases_query(Some(10), Some(20));
    assert!(query.contains("LIMIT 10"));
    assert!(query.contains("OFFSET 20"));

    let (query, params) = QueryOptimizer::optimized_documents_query("kb-1", Some("pdf"), Some(5), None);
    assert!(query.contains("file_type = ?"));
    assert!(query.contains("LIMIT 5"));
    assert_eq!(params.len(), 2);
    assert_eq!(params[0], "kb-1");
    assert_eq!(params[1], "pdf");
}

#[test]
fn test_file_processor_optimizations() {
    let messy_content = "  Line 1  \n\n\n  Line 2  \n   \n  Line 3  ";
    let optimized = FileProcessor::optimize_text_content(messy_content);
    assert_eq!(optimized, "Line 1\nLine 2\nLine 3");

    let long_content = "This is a very long piece of content that should be truncated. It contains multiple sentences. This should be cut off somewhere.";
    let preview = FileProcessor::generate_content_preview(long_content, 50);
    assert!(preview.len() <= 53);
    assert!(preview.ends_with("...") || preview.ends_with("."));
}

#[test]
fn paging_clauses_are_exact() {
    let base = "SELECT id, name, description, created_at, updated_at FROM knowledge_bases ORDER BY created_at DESC";
    assert_eq!(QueryOptimizer::optimized_knowledge_bases_query(None, None), base);
    assert_eq!(QueryOptimizer::optimized_knowledge_bases_query(Some(-3), None), format!("{} LIMIT -3", base));
    assert_eq!(QueryOptimizer::optimized_knowledge_bases_query(None, Some(0)), format!("{} OFFSET 0", base));
    assert_eq!(
        QueryOptimizer::optimized_knowledge_bases_query(Some(i32::MAX), Some(i32::MIN)),
        format!("{} LIMIT 2147483647 OFFSET -2147483648", base)
    );
}

#[test]
fn documents_query_without_filter() {
    let (query, params) = QueryOptimizer::optimized_documents_query("kb-9", None, Some(10), Some(30));
    assert_eq!(
        query,
        "SELECT id, knowledge_base_id, filename, file_type, file_path, file_size, upload_date FROM documents WHERE knowledge_base_id = ? ORDER BY upload_date DESC LIMIT 10 OFFSET 30"
    );
    assert_eq!(params, vec!["kb-9".to_string()]);
}

#[test]
fn content_search_binds_a_like_pattern() {
    let (query, params) = QueryOptimizer::optimized_content_search_query("kb", "rust", Some(7));
    assert!(query.ends_with("ORDER BY d.upload_date DESC\n         LIMIT 7"));
    assert_eq!(params, vec!["kb".to_string(), "%rust%".to_string()]);
    let (query, _) = QueryOptimizer::optimized_content_search_query("kb", "", None);
    assert!(query.ends_with("ORDER BY d.upload_date DESC\n        "));
}

#[test]
fn compaction_handles_edges() {
    assert_eq!(FileProcessor::optimize_text_content(""), "");
    assert_eq!(FileProcessor::optimize_text_content("\n\n \t\n"), "");
    assert_eq!(FileProcessor::optimize_text_content("a\r\nb\r\n"), "a\nb");
    assert_eq!(FileProcessor::optimize_text_content("\u{3000}x\u{a0}"), "x");
}

#[test]
fn preview_cuts_at_sentence_word_or_hard() {
    let long_content = "This is a very long piece of content that should be truncated. It contains multiple sentences. This should be cut off somewhere.";
    assert_eq!(FileProcessor::generate_content_preview(long_content, 50), "This is a very long piece of content that should...");
    assert_eq!(
        FileProcessor::generate_content_preview(long_content, 70),
        "This is a very long piece of content that should be truncated."
    );
    assert_eq!(FileProcessor::generate_content_preview("abcdefghij", 4), "abcd...");
    assert_eq!(FileProcessor::generate_content_preview("short", 5), "short");
    assert_eq!(FileProcessor::generate_content_preview("", 0), "");
}
