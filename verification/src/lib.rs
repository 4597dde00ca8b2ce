pub mod text;
pub mod words;
pub mod pattern;
pub mod models;
pub mod usage_parser;
pub mod cli_parser;
pub mod tree;
pub mod crawler;
pub mod crawl_proofs;
pub mod comparison;
pub mod diff_proofs;
pub mod summary_generator;
pub mod keyword_extractor;
pub mod typescript_diff;
pub mod cli_navigator_toolkit;
pub mod sorting;
pub mod typescript_generator;
pub mod replicator;
pub mod typescript_writer;
pub mod naive_tooltip_content_generator;
pub mod reports;
pub mod serve;
pub mod usage_proofs;
pub mod crawl_progress;
