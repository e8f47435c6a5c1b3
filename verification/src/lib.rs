//! Static analysis of next-intl translation usage in TSX/JSX sources.

pub mod text;
pub mod context;
pub mod strmap;
pub mod value_source;
pub mod translation_source;
pub mod binding_context;
pub mod glob;
pub mod lines;
pub mod comment;
pub mod key_objects;
pub mod schema;
pub mod schema_collector;
pub mod translation_calls;
pub mod annotation_store;
pub mod ast;
pub mod value_analyzer;
pub mod keys;
pub mod directives;
pub mod extraction;
pub mod visitor;
pub mod collector;
pub mod registry;
pub mod registries;
pub mod issues;
pub mod actions;
pub mod report;
pub mod commands;
pub mod summaries;
pub mod run_result;
pub mod args;
pub mod hardcoded;
pub mod file_analyzer;
pub mod shared;
pub mod edits;
pub mod check_context;
pub mod runner;
pub mod clean;
pub mod rules;
pub mod messages;
