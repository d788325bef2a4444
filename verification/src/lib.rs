//! Verified core of a novel-site crawler: text utilities, full-text search
//! helpers, page parsing and content decryption, and local import/export logic.

pub mod text;
pub mod numfmt;
pub mod search;
pub mod crypto;
pub mod ext;
pub mod dict;
pub mod parse;
pub mod error;
pub mod pages;
pub mod stop;
pub mod cf;
pub mod models;
pub mod pipeline;
pub mod cli;
pub mod import;
pub mod export;
pub mod scheduler;
pub mod listing;
pub mod crawl;
pub mod cache;
pub mod api;
pub mod retry;
pub mod turnstile;
pub mod bypass;
