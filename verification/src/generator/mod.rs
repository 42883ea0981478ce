//! Code generators from IR.

pub mod luau;

pub use luau::{LuauConfig, LuauConfigModel, LuauGenerator};
