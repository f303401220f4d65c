//! World Loom: the rules of a bounded, persistent block world.

pub mod answer_rules;
pub mod anvil;
pub mod anvil_rules;
pub mod asset_rules;
pub mod asset_service;
pub mod block;
pub mod bridge;
pub mod bridge_rules;
pub mod build_palette;
pub mod build_plan;
pub mod build_rules;
pub mod build_service;
pub mod canonical_rules;
pub mod chunk_rules;
pub mod chunks;
pub mod digest;
pub mod ids;
pub mod json;
pub mod layer;
pub mod listing_rules;
pub mod mcp;
pub mod mcp_rules;
pub mod ordered_map;
pub mod packing;
pub mod persistence;
pub mod plan_rules;
pub mod position_map;
pub mod registry;
pub mod scalar;
pub mod sculpt_conflict_rules;
pub mod sculpt_json;
pub mod sculpt_rules;
pub mod sculpt_spec;
pub mod server;
pub mod server_rules;
pub mod storage_rules;
pub mod text;
pub mod text_rules;
pub mod tool_rules;
pub mod world_command;
pub mod written_rules;
pub mod writer;

