//! Configuration and key-set handling for a proxy that publishes the token
//! signing keys of a Kubernetes cluster.

pub mod text;
pub mod config;
pub mod encoding;
pub mod json;
pub mod jwk;
pub mod certificates;
pub mod upstream;
