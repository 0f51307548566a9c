pub mod cli;
pub mod config;
mod eips;
pub mod engine;
pub mod eth_wire;
pub mod eth_wire_types;
pub mod keyed;
pub mod node;
pub mod primitives;
pub mod rlp;
pub mod rlp_payload;
pub mod rlp_types;
pub mod rlp_unique;
pub mod sorted_map;
pub mod stages;
pub mod storage;
pub mod text;
pub mod time;
pub mod trie;
