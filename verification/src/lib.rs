//! Core mining engine of a Krist proof-of-work miner.

pub mod address;
pub mod benchmark;
pub mod block;
pub mod channel;
pub mod coordinator;
pub mod cpu;
pub mod decimal;
pub mod gpu;
pub mod hexcode;
pub mod input;
pub mod interface;
pub mod kernels;
pub mod miner;
pub mod offsets;
pub mod rate;
pub mod selector;
pub mod selftest;
pub mod target;
pub mod text;
pub mod types;
pub mod worker;
