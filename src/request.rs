//! Service configuration and the two request payloads: document ingestion and
//! streamed chat query. Store coordinates and the retrieval limit are optional
//! fields of one configuration; with store coordinates the retrieval-augmented
//! endpoints are used.
use vstd::prelude::*;

verus! {

pub const DEFAULT_STORE_URL: &'static str = "http://localhost:6333";

pub const DEFAULT_LIMIT: u64 = 3;

pub const EMBEDDINGS_PATH: &'static str = "/v1/embeddings";

pub const RAG_DOCUMENT_PATH: &'static str = "/v1/rag/document";

pub const CHAT_PATH: &'static str = "/v1/chat/completions";

pub const RAG_QUERY_PATH: &'static str = "/v1/rag/query";

/// Where a vector store keeps the document's chunks.
pub struct StoreCoordinates {
    pub url: String,
    pub collection: String,
}

/// The remote service and what every request carries.
pub struct ServiceConfig {
    pub inference_host: String,
    pub embedding_model: String,
    pub chat_model: String,
    pub store: Option<StoreCoordinates>,
    pub limit: Option<u64>,
}

/// Body of the ingestion call.
pub struct IngestionRequest {
    pub model: String,
    pub input: Vec<String>,
    pub store_url: Option<String>,
    pub collection_name: Option<String>,
}

/// Body of the query call: one user message, streamed back.
pub struct QueryRequest {
    pub model: String,
    pub user_content: String,
    pub stream: bool,
    pub store_url: Option<String>,
    pub collection_name: Option<String>,
    pub limit: Option<u64>,
}

pub open spec fn opt_str_view(o: Option<String>) -> Option<Seq<char>> {
    match o {
        Some(s) => Some(s@),
        None => None,
    }
}

fn clone_opt(o: &Option<String>) -> (r: Option<String>)
    ensures
        opt_str_view(r) == opt_str_view(*o),
{
    match o {
        Some(s) => Some(s.clone()),
        None => None,
    }
}

impl ServiceConfig {
    /// A configuration without a vector store.
    pub fn new(inference_host: String, embedding_model: String, chat_model: String) -> (r:
        ServiceConfig)
        ensures
            r.inference_host@ == inference_host@,
            r.embedding_model@ == embedding_model@,
            r.chat_model@ == chat_model@,
            r.store is None,
            r.limit is None,
    {
        ServiceConfig { inference_host, embedding_model, chat_model, store: None, limit: None }
    }

    pub fn with_store(self, url: String, collection: String) -> (r: ServiceConfig)
        ensures
            r.inference_host@ == self.inference_host@,
            r.embedding_model@ == self.embedding_model@,
            r.chat_model@ == self.chat_model@,
            r.store matches Some(s) && s.url@ == url@ && s.collection@ == collection@,
            r.limit == self.limit,
    {
        ServiceConfig { store: Some(StoreCoordinates { url, collection }), ..self }
    }

    pub fn with_limit(self, limit: u64) -> (r: ServiceConfig)
        ensures
            r.inference_host@ == self.inference_host@,
            r.embedding_model@ == self.embedding_model@,
            r.chat_model@ == self.chat_model@,
            r.store == self.store,
            r.limit == Some(limit),
    {
        ServiceConfig { limit: Some(limit), ..self }
    }

    pub open spec fn store_url_view(&self) -> Option<Seq<char>> {
        match self.store {
            Some(s) => Some(s.url@),
            None => None,
        }
    }

    pub open spec fn collection_view(&self) -> Option<Seq<char>> {
        match self.store {
            Some(s) => Some(s.collection@),
            None => None,
        }
    }

    fn store_url(&self) -> (r: Option<String>)
        ensures
            opt_str_view(r) == self.store_url_view(),
    {
        match &self.store {
            Some(s) => Some(s.url.clone()),
            None => None,
        }
    }

    fn collection(&self) -> (r: Option<String>)
        ensures
            opt_str_view(r) == self.collection_view(),
    {
        match &self.store {
            Some(s) => Some(s.collection.clone()),
            None => None,
        }
    }

    /// The ingestion endpoint: the retrieval-augmented one when a store is set.
    pub fn ingestion_url(&self) -> (r: String)
        ensures
            r@ == self.inference_host@ + (if self.store is Some {
                RAG_DOCUMENT_PATH@
            } else {
                EMBEDDINGS_PATH@
            }),
    {
        let mut url = self.inference_host.clone();
        if self.store.is_some() {
            url.append(RAG_DOCUMENT_PATH);
        } else {
            url.append(EMBEDDINGS_PATH);
        }
        url
    }

    /// The query endpoint: the retrieval-augmented one when a store is set.
    pub fn query_url(&self) -> (r: String)
        ensures
            r@ == self.inference_host@ + (if self.store is Some {
                RAG_QUERY_PATH@
            } else {
                CHAT_PATH@
            }),
    {
        let mut url = self.inference_host.clone();
        if self.store.is_some() {
            url.append(RAG_QUERY_PATH);
        } else {
            url.append(CHAT_PATH);
        }
        url
    }

    /// All chunks, in order, for one ingestion call.
    pub fn ingestion_request(&self, chunks: Vec<String>) -> (r: IngestionRequest)
        ensures
            r.model@ == self.embedding_model@,
            r.input@ == chunks@,
            opt_str_view(r.store_url) == self.store_url_view(),
            opt_str_view(r.collection_name) == self.collection_view(),
    {
        IngestionRequest {
            model: self.embedding_model.clone(),
            input: chunks,
            store_url: self.store_url(),
            collection_name: self.collection(),
        }
    }

    /// A streamed chat request for one utterance; the retrieval limit is sent
    /// only together with a store.
    pub fn query_request(&self, utterance: String) -> (r: QueryRequest)
        ensures
            r.model@ == self.chat_model@,
            r.user_content@ == utterance@,
            r.stream,
            opt_str_view(r.store_url) == self.store_url_view(),
            opt_str_view(r.collection_name) == self.collection_view(),
            r.limit == (if self.store is Some {
                self.limit
            } else {
                None
            }),
    {
        let limit = if self.store.is_some() {
            self.limit
        } else {
            None
        };
        QueryRequest {
            model: self.chat_model.clone(),
            user_content: utterance,
            stream: true,
            store_url: self.store_url(),
            collection_name: self.collection(),
            limit,
        }
    }
}

} // verus!
