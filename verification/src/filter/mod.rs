//! Rules that choose what is transferred.
//!
//! Rules are evaluated in order; the first that matches wins.
//!
//! Pattern syntax:
//! - `*` matches any bytes but `/`
//! - `**` matches anything
//! - `?` matches any single byte but `/`
//! - `[...]` is a character class
//! - a leading `/` anchors to the transfer root
//! - a trailing `/` matches only directories

pub mod files;
pub mod laws;
pub mod pattern;
pub mod rule;
pub mod rule_laws;

pub use pattern::Pattern;
pub use rule::{FilterAction, FilterRule, FilterRuleList};
