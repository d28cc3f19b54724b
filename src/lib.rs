//! Versioned prompt storage: prompt and metadata records, the comma-joined
//! tag encoding, and an in-memory prompt table whose operations are verified
//! against a model of the `prompts` and `metadata` tables.
pub mod answers;
pub mod generate;
pub mod laws;
pub mod models;
pub mod records;
pub mod store;
pub mod tags;

pub use generate::{now_timestamp, timestamp_from_secs};
pub use models::{
    CreatePromptError, CreatePromptRequest, DeletePromptError, GetPromptContentRequest,
    GetPromptError, GetPromptRequest, GetPromptsError, GetPromptsRequest, Prompt, PromptMetadata,
    UpdateMetadataError, UpdateMetadataRequest, UpdatePromptError,
};
pub use records::{CacheError, DbPrompt, DbPromptMetadata, MetadataRow, PromptRow};
pub use store::PromptStore;
pub use tags::{join_tag_list, split_tag_list};
