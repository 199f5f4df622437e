//! Verified core of the Malm deployment engine.
//!
//! The modules hold the engine's rules: parsers, limits, state machines and
//! message texts. Reading files, running processes and talking to the kernel
//! happen outside of this crate, which works on plain values alone.

pub mod assets;
pub mod authoring;
pub mod authoring_inputs;
pub mod authoring_planner;
pub mod canonical;
pub mod capture;
pub mod capture_contents;
pub mod capture_steps;
pub mod capture_walk;
pub mod codec;
pub mod component_invocation;
pub mod component_profiles;
pub mod config_documents;
pub mod config_walk;
pub mod deployment;
pub mod durability;
pub mod engine_config;
pub mod error;
pub mod events;
pub mod git;
pub mod graph_acquisition;
pub mod graph_sources;
pub mod graph_steps;
pub mod lifecycle;
pub mod limits;
pub mod lock_discovery;
pub mod lock_file;
pub mod lock_graph;
pub mod lock_nodes;
pub mod mount_identity;
pub mod object_publish;
pub mod object_read;
pub mod objects;
pub mod overlays;
pub mod pack_history;
pub mod pack_manifest;
pub mod pack_store;
pub mod path;
pub mod plan;
pub mod ports;
pub mod prepare_error;
pub mod prepare_request;
pub mod prepare_reuse;
pub mod seqs;
pub mod rich_outputs;
pub mod rich_planner;
pub mod selected_state;
pub mod sort;
pub mod stat;
pub mod state_parent;
pub mod state_root;
pub mod store_error;
pub mod store_pin;
pub mod store_steps;
pub mod store_types;
pub mod text;
pub mod time;
pub mod transform;
pub mod transitions;
pub mod tree_contents;
pub mod tree_graph;
pub mod xz;
