//! cgrep: local code search, with the text handling, chunking, ranking
//! bookkeeping and filtering rules proved correct.

pub mod text;
pub mod embedding_chunker;
pub mod hashing;
pub mod index_chunks;
pub mod context_pack;
pub mod regex_engine;
pub mod filters;
pub mod paths;
pub mod snippets;
pub mod scan;
pub mod symbols;
pub mod syntax_tree;
pub mod scanner;
pub mod index_plan;
pub mod config;
pub mod provider;
pub mod embed_plan;
pub mod cache;
pub mod output;
pub mod hybrid;
pub mod cli;
pub mod watch;
pub mod agent;
pub mod utils;
pub mod search_plan;
pub mod storage;
pub mod index_filter;
pub mod lookup;
pub mod install_text;
