//! Context and namespace selection logic for a Kubernetes kubeconfig switcher.
pub mod cache;
pub mod cmd;
pub mod completion;
pub mod error;
pub mod kube_config;
pub mod search;
pub mod text;
