//! A load balancing proxy: the management of proxied services and their endpoints, endpoint
//! discovery through Kubernetes, protocol registries and the endpoint protocol's message logic.

pub mod backend;
pub mod net;
pub mod text;
pub mod kubernetes;
pub mod protocol;
pub mod http;
pub mod matchmaking;
pub mod state;
pub mod cli;
