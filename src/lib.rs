//! Removes tracking parameters from URLs.
//!
//! A layered set of rules, keyed by the destination host and path, names the
//! query and fragment parameters to strip and, for redirector links, where the
//! real destination is embedded.
//!
//! [`clean`] builds the built-in rules on each call; a long-running caller
//! builds them once with [`rules::default_rules`] and passes them to
//! [`clean_with_rules`].
pub mod clean;
pub mod laws;
pub mod matcher;
pub mod parsed_url;
pub mod rules;
pub mod text;
pub mod web;

pub use clean::{clean, clean_str, clean_str_raw, clean_with_rules, Cleaned};
pub use matcher::M;
pub use parsed_url::{ParsedUrl, QueryPair};
pub use web::{hash, HttpError, PrivacyFriendlyRootSpanBuilder, Redirect, RequestDetails};
