//! Host-side logic of the GLM5.2 decode engine.
//!
//! Everything the engine decides on the host before a kernel is launched lives
//! here: the launch checks, the context-cap budget, the page and slot
//! accounting of a decode step, the speculative lanes, the shapes and layouts
//! that the device buffers must have, and the order in which the stages of a
//! layer run. Device buffers appear as their lengths and device read-backs as
//! plain vectors, so that every function is a function of plain values.

pub mod arena;
pub mod arith;
pub mod bench;
pub mod budget;
pub mod checkpoint;
pub mod config;
pub mod decode_meta;
pub mod deepep;
pub mod dspark;
pub mod dspark_flow;
pub mod dspark_model;
pub mod eos;
pub mod fp8;
pub mod indexer;
pub mod indexer_flow;
pub mod json;
pub mod launch;
pub mod layer;
pub mod layer_flow;
pub mod load_args;
pub mod mla;
pub mod mla_flow;
pub mod mla_plan;
pub mod moe_flow;
pub mod moe_gemm;
pub mod moe_layout;
pub mod moe_routed;
pub mod moe_smoke;
pub mod mtp;
pub mod mtp_flow;
pub mod mtp_round;
pub mod offload;
pub mod oracle;
pub mod proj;
pub mod rank_model;
pub mod stage;
pub mod startup;
pub mod step;
pub mod step_laws;
pub mod step_run;
pub mod tensors;
pub mod text;
pub mod topology;
