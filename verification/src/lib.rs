//! Definition lookup in source code: the verified core of `dook`.

pub mod cli;
pub mod config;
pub mod dep_resolution;
pub mod downloads_policy;
pub mod dumptree;
pub mod inputs;
pub mod ipynb;
pub mod language_name;
pub mod loader;
pub mod main_search;
pub mod multi_line_string;
pub mod outputs;
pub mod paging;
pub mod pattern;
pub mod query_compiler;
pub mod range_union;
pub mod run_grep;
pub mod searches;
pub mod subfiles;
pub mod syntax;
pub mod text;
pub mod uncase;

pub use language_name::LanguageName;
pub use range_union::{RangeUnion, RangeUnionIterator};
