pub mod archive;
pub mod archive_url;
pub mod block;
pub mod block_path;
pub mod cache;
pub mod chain;
pub mod config;
pub mod distribution;
pub mod error;
pub mod fetcher;
pub mod integrity;
pub mod requests;
pub mod round_trip;
pub mod sources;
pub mod steps;
pub mod text;
pub mod transfer;
pub mod views;
pub mod writer;
