//! Message types of the modules' outputs.
pub mod entity;
pub mod erc20_types;
pub mod field;
pub mod value;
