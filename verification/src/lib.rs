//! Building the configuration program that renders or exports components,
//! and the decisions around its inputs and outputs.
pub mod error;
pub mod export;
pub mod nls;
pub mod path;
pub mod pattern;
pub mod render;
pub mod text;
pub mod values;
