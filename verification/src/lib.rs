pub mod buffer;
pub mod catalog;
pub mod codec;
pub mod config;
pub mod error;
pub mod format;
pub mod padding;
pub mod params;
pub mod pipeline;
pub mod quality;
pub mod quantize;
pub mod search;
pub mod text;
