//! Catalog reconciliation and lifecycle decisions for game-server workloads.
//!
//! The crate merges the instances that a cluster reports with the templates
//! that a directory declares, and decides what a start or a stop request has
//! to do next. Talking to the cluster and to the file system is left to the
//! caller: every function here works on plain values.

pub mod annotations;
pub mod catalog;
pub mod config;
pub mod error;
pub mod json;
pub mod lifecycle;
pub mod pod_templates;
pub mod response;
pub mod text;
