//! Verified core of a native OCI engine and desktop controller.

pub mod text;
pub mod numfmt;
pub mod model;
pub mod order;
pub mod units;
pub mod store;
pub mod dockerfile;
pub mod builder;
pub mod ui;
pub mod desktop;
pub mod runtime;
pub mod paths;
pub mod docker_cli;
pub mod oci;
pub mod tasks;
