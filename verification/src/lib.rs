//! The verified core of a client for a generative-AI HTTP/SSE service:
//! the bearer-token lifecycle shared across concurrent callers, the
//! request/response classification that turns HTTP exchanges into typed
//! results or typed errors, the server-sent-events decoder with the
//! service's textual end-of-stream sentinel, and the batch-job submission
//! and polling state machine. The transport itself — sockets, TLS, the
//! event loop — lives outside; everything here is plain values in, plain
//! values out, each function under a contract.

pub mod batch;
pub mod check;
pub mod embeddings;
pub mod executor;
pub mod function;
pub mod generation;
pub mod json;
pub mod sse;
pub mod stream;
pub mod token;
pub mod url;
