//! A retrieval-augmented chat client library: token-bounded document
//! chunking, request construction, and an incremental decoder for streamed
//! chat-completion responses.

pub mod framing;
pub mod json;
pub mod text;
pub mod decoder;
pub mod chunker;
pub mod input;
pub mod request;
