//! Type definitions for objects encoded in YAML and used in Kubernetes contexts

pub mod file_ref;
pub mod generator_behavior;
pub mod k8s_secret;
pub mod object_meta;
pub mod pass_secret;
pub mod pass_source;
pub mod resource_ref;
pub mod type_id;

pub use file_ref::FileRef;
pub use generator_behavior::GeneratorBehavior;
pub use k8s_secret::V1Secret;
pub use object_meta::K8sObjectMeta;
pub use pass_secret::ApiVersion;
pub use pass_secret::Kind;
pub use pass_secret::V1Beta1PassSecret;
pub use pass_source::GitPassSource;
pub use pass_source::PassSource;
pub use resource_ref::ResourceRef;
pub use type_id::K8sTypeId;
