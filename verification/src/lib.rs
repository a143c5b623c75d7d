//! Verified core of the atomr actor runtime: vector clocks, reachability,
//! shard allocation, the event-sourced shard coordinator and the small
//! decision procedures of the cluster tools and Python bindings.

pub mod text;
pub mod str_map;
pub mod vector_clock;
pub mod sbr_strategy;
pub mod sorted;
pub mod allocation;
pub mod coordinator;
pub mod ddata_surface;
pub mod stream_policy;
pub mod reachability;
pub mod cluster_client;
pub mod singleton;
pub mod supervision;
pub mod codec;
pub mod paths;
pub mod names;
pub mod compat;
pub mod daemon;
pub mod router;
pub mod sharding_names;
pub mod pub_sub;
pub mod fsm;
pub mod exporters;
pub mod cluster_ops;
pub mod interpreter;
pub mod actor_registry;
pub mod services;
pub mod remote_codecs;
pub mod props;
