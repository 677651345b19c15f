//! Deploy execution orchestration for a smart-contract execution engine.

pub mod assoc;
pub mod engine_config;
pub mod engine_state;
pub mod error;
pub mod execution;
pub mod execution_effect;
pub mod execution_result;
pub mod genesis;
pub mod global_state;
pub mod key;
pub mod op;
pub mod tracking_copy;
pub mod transform;
pub mod u256;
pub mod u512;
pub mod utils;
pub mod value;
