//! A crawler for Philomena image boards: it reads search result pages, turns
//! the images they list into download tasks, and decides which tasks need a
//! download.
pub mod cli;
pub mod client;
pub mod config;
pub mod error;
pub mod markup;
pub mod models;
pub mod pipeline;
pub mod text;
