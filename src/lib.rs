//! Embeds the files of asset directories in a binary: pipelines choose the
//! files under a root through ordered filters that take or leave files, give each
//! a public URI, and generate a constant array of records that holds them.
pub mod asset;
pub mod builder;
pub mod codegen;
pub mod error;
pub mod filter;
pub mod generate;
pub mod path;
pub mod pipeline;
pub mod web;

pub use asset::{Asset, WebAsset};
pub use builder::AssetsBuilder;
pub use codegen::{AnyPipeline, Codegen, Pipeline};
pub use error::PipelineError;
pub use filter::{Filter, FilterListType, FilterRule};
pub use pipeline::{Assets, Compression, FoundFile, Visit};
pub use web::WebAssets;
