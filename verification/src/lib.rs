pub mod config;
pub mod extractors;
pub mod loaders;
pub mod models;
pub mod pipeline;
pub mod transformers;
pub mod utils;
