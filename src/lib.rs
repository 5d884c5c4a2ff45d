//! Windowed polling of a discussion-post search service and token-bounded
//! map/reduce summarisation of the linked articles.
//!
//! Everything here is pure decision logic: the network work (search, page
//! extraction, text completion, delivery) is performed by the caller, which
//! hands plain values to these functions and carries out the actions they
//! return.

mod acquire;
mod chunk;
mod pipeline;
mod poll;
mod summarize;
mod text;

pub use acquire::{post_url, targets, RawContent, Source, Target};
pub use chunk::{lemma_chunks_deterministic, lemma_chunks_partition, split};
pub use pipeline::{
    format_message, structured_block, summary_or_placeholder, treatment, Treatment, PLACEHOLDER,
    SMALL_CONTENT_TOKENS,
};
pub use poll::{recent_hits, search_url, window_start, Hit, Search};
pub use summarize::{
    Action, PromptKind, Reply, Request, Stage, SummaryConfig, SummaryResult, Summarizer,
};
pub use text::{count, decode, encode, is_space, normalize_whitespace};
