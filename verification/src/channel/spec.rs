//! The channel-spec language of `--ch`: `key=value[,key=value]*`.

pub mod error;
pub mod tokenize;
pub mod types;
pub mod values;
pub mod decimal;
pub mod parser;
pub mod validate;
pub mod display;
pub mod round_trip;
pub mod rebuild;
