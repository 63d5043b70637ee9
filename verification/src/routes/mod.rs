//! Logic behind the HTTP endpoints: query building, escaping, diffs,
//! page extraction and result post-processing.
pub mod cascade;
pub mod collections;
pub mod config;
pub mod diff;
pub mod epo;
pub mod escape;
pub mod feature_cards;
pub mod idea;
pub mod legal;
pub mod online;
pub mod print;
pub mod patent_page;
pub mod report;
pub mod results;
pub mod query;
pub mod search_text;
pub mod settings;
pub mod sogou;
pub mod sources;
pub mod upload;
