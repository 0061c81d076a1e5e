//! A single-domain crawler: the coordination core that deduplicates, filters and
//! dispatches discovered links, and the worker policy that turns one fetched page
//! into new discoveries.
pub mod crawler;
pub mod error;
pub mod page_url;
pub mod worker;

pub use crawler::{should_shut_down, CrawlTask, Crawler, Signal, Verdict};
pub use error::BfError;
pub use page_url::PageUrl;
pub use worker::{Admission, Next, Stage, WorkerPolicy};
