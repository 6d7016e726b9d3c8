//! A kustomize KRM-function library that materializes Kubernetes secrets from a
//! `pass` password store, synchronizing the store from a remote git mirror when
//! the secret specification names one.
//!
//! The crate is organized leaf-first:
//! - [`encoding`] holds the byte-level helpers (hex, base64, UTF-8 classification),
//! - [`git_util`] holds the credential cascade and the mirror-synchronization
//!   state machine,
//! - [`k8s_types`] holds the typed objects exchanged with the orchestrator,
//! - [`secret_conversion`] assembles the final secret from resolved entries,
//! - [`cli`] and [`krm_types`] describe the command-line and wire surfaces.

pub mod cli;
pub mod encoding;
pub mod git_util;
pub mod k8s_types;
pub mod krm_types;
pub mod secret_conversion;

pub use k8s_types::GeneratorBehavior;
pub use k8s_types::K8sObjectMeta;
pub use k8s_types::K8sTypeId;
pub use k8s_types::PassSource;
pub use k8s_types::V1Beta1PassSecret;
pub use k8s_types::V1Secret;
