//! Per-application network isolation for container manifests: a host-port
//! sanitizer, a subnet allocator, address assignment, override synthesis and
//! resolver zone records, each stated and proved with Verus.

pub mod application;
pub mod config;
pub mod dhcp;
pub mod dns;
pub mod docker_compose;
pub mod error;
pub mod lima;
pub mod mutagen;
pub mod net;
pub mod text;
pub mod vm;
