//! A breadth-first web crawler core that discovers, classifies and validates PDF documents.


pub mod bytes;
pub mod classifier;
pub mod config;
pub mod counters;
pub mod crawl;
pub mod download;
pub mod filename;
pub mod frontier;
pub mod identity;
pub mod journal;
pub mod links;
pub mod misc;
pub mod numbers;
pub mod outside;
pub mod pool;
pub mod robots;
pub mod pdf_validator;
pub mod text;
pub mod verification;
