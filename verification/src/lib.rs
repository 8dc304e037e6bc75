//! Ollama Cluster: routing, health tracking and configuration logic for a
//! cluster of Ollama inference nodes, with machine-checked contracts.

pub mod text;
pub mod state;
pub mod circuit_breaker;
pub mod retry;
pub mod model_mode;
pub mod order;
pub mod routing;
pub mod fingerprint;
pub mod config;
pub mod store;
pub mod runtime;
pub mod health;
pub mod discovery;
pub mod protocol;
pub mod api;
pub mod proxy;
pub mod cli;
pub mod tui;
pub mod mock;
pub mod error;
