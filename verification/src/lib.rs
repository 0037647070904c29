//! Metadata extraction core: a rule engine for text, identifier extraction
//! from file names, per-source field extraction and multi-source search.

pub mod config;
pub mod error;
pub mod lookup;
pub mod number_parser;
pub mod organize;
pub mod parser;
pub mod pattern;
pub mod request;
pub mod scraping;
pub mod site_search;
pub mod strings;
pub mod text;
pub mod translator;
pub mod xpath;
