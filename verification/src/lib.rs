//! Adapter between a generic chat-completion interface and the DeepSeek
//! chat-completion wire format: request-body assembly (typed fields plus a
//! deep-merged free-form override bag) and response-shape resolution
//! (tool-call versus plain-text precedence), with client configuration.

use vstd::prelude::*;

pub mod client;
pub mod completion;
pub mod json;

pub use client::Client;
pub use client::ClientBuilder;
pub use completion::CompletionModel;
pub use completion::DEEPSEEK_CHAT;
pub use completion::DEEPSEEK_CODER;
pub use json::Json;

verus! {

/// Default token budget written into a request body when the caller gives none.
pub const DEFAULT_MAX_TOKENS: u64 = 2048;

} // verus!
