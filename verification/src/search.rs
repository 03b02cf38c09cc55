//! The search engine: queries, compiled patterns, result assembly, the
//! plan of a walk and the session that streams results to a consumer.

pub mod config;
pub mod pattern;
pub mod query;
pub mod result;
pub mod session;
pub mod sink;
pub mod spans;
pub mod walk;

pub use config::SearchConfig;
pub use pattern::{CompiledMatcher, MatcherOptions, PatternError};
pub use query::{BinaryPolicy, ScanOptions, SearchQuery, SearchWorker};
pub use result::{SearchResult, SearchResultEntry, SearchResultEntryBuilder, SearchResultLine};
pub use session::{CancelToken, PendingSearch};
pub use sink::{assemble, LineEvent, SearchError, SearchSink};
pub use walk::{
    after_send, deliver, plan_search, resolve_threads, visit, EntryKind, SearchPlan, SpawnError,
    VisitAction, WalkDecision,
};
