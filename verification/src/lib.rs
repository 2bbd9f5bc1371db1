//! Management of FreeBSD jails and bhyve virtual machines: the request
//! protocol, the dependency graph, and the plans that create, start, stop and
//! destroy resources on a host.

pub mod address;
pub mod bhyve;
pub mod client;
pub mod config;
pub mod daemon;
pub mod delivery;
pub mod dependency;
pub mod error;
pub mod extent;
pub mod jail;
pub mod launch;
pub mod metadata;
pub mod nameservice;
pub mod net;
pub mod network;
pub mod output;
pub mod plan;
pub mod protocol;
pub mod request;
pub mod service;
pub mod snapshot;
pub mod sort;
pub mod template;
pub mod text;
pub mod util;
pub mod wire;
