//! Manager for Selendra nodes: a registry of named nodes, the systemd units
//! that run them, and the download of the node binary.

pub mod binary;
pub mod download;
pub mod node;
pub mod profile;
pub mod registry;
pub mod service;
pub mod text;
