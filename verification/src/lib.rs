//! Client-side logic for OpenAI-compatible chat-completion endpoints: option
//! merging, request planning, server-sent-event framing, mapping of provider
//! records to completions, and the folds that turn a stream of partial
//! completions into one answer.

pub mod accumulate;
pub mod completion;
pub mod config;
pub mod decode;
pub mod message;
pub mod models;
pub mod options;
pub mod prompt;
pub mod request;
pub mod response;
pub mod round_trip;
pub mod sse;
pub mod text;
pub mod text_stream;
pub mod usage;
pub mod wire;

pub use completion::Completion;
pub use message::{Message, Role};
pub use models::Model;
pub use options::{ModelOptions, OpenAIModelOptions};
pub use prompt::Prompt;
pub use usage::Usage;
