//! Core of a configuration-driven graph query gateway: per-document
//! authorization, point-in-time resolution over a versioned document
//! collection, DTO assembly, and decomposition of nested query fragments
//! for forwarding to remote subgraphs.

pub mod auth;
pub mod config;
pub mod dto;
pub mod forwarder;
pub mod query;
pub mod root;
pub mod subgraph;
pub mod temporal;
pub mod value;
