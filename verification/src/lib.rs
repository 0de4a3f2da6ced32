//! A registry of named cluster connection profiles.
//!
//! A registry is an ordered list of records, each holding a cluster's
//! `name` (the unique key), its `url`, and the `username` used to log in.
//! The library provides the registry operations: add-or-update by name,
//! exact-match lookup, display-line formatting, and the decision of what
//! an external login tool is to be invoked with. Reading and writing the
//! configuration file, and launching the login tool, are left to callers.

pub mod laws;
pub mod registry;

pub use registry::add_cluster;
pub use registry::connect_to_cluster;
pub use registry::find_cluster;
pub use registry::format_clusters_print;
pub use registry::list_clusters;
pub use registry::Cluster;
pub use registry::ClusterView;
pub use registry::LoginRequest;
pub use registry::NotFoundError;
