//! Verified engine that strips tracking and marketing artifacts from URLs by
//! matching them against a database of per-provider cleaning rules and
//! rewriting the URL accordingly.

pub mod cleaner;
pub mod laws;
pub mod matcher;
pub mod model;
pub mod strutil;
pub mod url_value;

pub use cleaner::{
    CleaningOptions, CleaningResult, ClearUrlsConfig, CompileError, Provider, UrlCleaner,
};
pub use model::{CleanError, RuleField};
pub use strutil::parse_csv;
pub use url_value::ParsedUrl;
