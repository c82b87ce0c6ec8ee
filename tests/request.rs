use llama_rag::request::{ServiceConfig, DEFAULT_LIMIT, DEFAULT_STORE_URL};

fn plain() -> ServiceConfig {
    ServiceConfig::new(
        "http://localhost:8080".to_string(),
        "embed".to_string(),
        "chat".to_string(),
    )
}

#[test]
fn plain_config_uses_plain_endpoints() {
    let c = plain();
    assert_eq!(c.ingestion_url(), "http://localhost:8080/v1/embeddings");
    assert_eq!(c.query_url(), "http://localhost:8080/v1/chat/completions");
    let q = c.query_request("What is the capital of France?".to_string());
    assert_eq!(q.model, "chat");
    assert_eq!(q.user_content, "What is the capital of France?");
    assert!(q.stream);
    assert_eq!(q.store_url, None);
    assert_eq!(q.limit, None);
}

#[test]
fn store_config_uses_retrieval_endpoints() {
    let c = plain()
        .with_store(DEFAULT_STORE_URL.to_string(), "paris".to_string())
        .with_limit(DEFAULT_LIMIT);
    assert_eq!(c.ingestion_url(), "http://localhost:8080/v1/rag/document");
    assert_eq!(c.query_url(), "http://localhost:8080/v1/rag/query");
    let chunks = vec!["one".to_string(), "two".to_string()];
    let r = c.ingestion_request(chunks.clone());
    assert_eq!(r.model, "embed");
    assert_eq!(r.input, chunks);
    assert_eq!(r.store_url.as_deref(), Some("http://localhost:6333"));
    assert_eq!(r.collection_name.as_deref(), Some("paris"));
    let q = c.query_request(String::new());
    assert_eq!(q.user_content, "");
    assert_eq!(q.limit, Some(3));
    assert_eq!(q.collection_name.as_deref(), Some("paris"));
}

#[test]
fn limit_without_store_is_not_sent() {
    let q = plain().with_limit(5).query_request("hi".to_string());
    assert_eq!(q.limit, None);
}
