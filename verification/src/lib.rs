//! Core of a network-camera reconnaissance engine: target expansion,
//! fingerprint-rule evaluation, a pluggable verification registry, a bounded
//! snapshot pipeline, and a resumable progress/checkpoint store.

pub mod argparse;
pub mod cli;
pub mod config;
pub mod fingerprint;
pub mod helper;
pub mod net;
pub mod outside;
pub mod pipeline;
pub mod poc;
pub mod pocs;
pub mod scan;
pub mod session;
pub mod templates;
pub mod text;
