//! The configuration object handed to this KRM function

use crate::k8s_types::object_meta::K8sObjectMeta;
use crate::k8s_types::pass_source::PassSource;
use crate::k8s_types::type_id::K8sTypeId;
use vstd::prelude::*;

verus! {

/// The concrete type that is used to configure this application as a KRM function
///
/// The content of this object is similar to a Kubernetes Secret definition
/// except that the meaning of the `data` field is different: every value is a
/// reference that is resolved against the password store.
#[derive(Debug)]
pub struct V1Beta1PassSecret {
    /// Type identification information as apiVersion and kind
    pub k8s_type_id: K8sTypeId<ApiVersion, Kind>,

    /// Standard object's metadata
    pub metadata: K8sObjectMeta,

    /// Reference to the store from which data of this secret should be retrieved
    pub source: PassSource,

    /// Secret data references: pairs of output key and password-store entry name.
    ///
    /// Keys are copied to the resulting Kubernetes secret object while values
    /// are resolved against the store.
    pub data: Vec<(String, String)>,

    /// Immutable, if set to true, asks that data stored in the secret not be updated
    pub immutable: Option<bool>,

    /// Used to facilitate programmatic handling of secret data
    pub secret_type: Option<String>,

    /// The merge behavior requested for the generated secret
    pub behavior: crate::k8s_types::generator_behavior::GeneratorBehavior,
}

/// Possible values for the `apiVersion` field of a pass secret
#[derive(Copy, Clone, Debug, Hash, PartialEq, Eq, Structural)]
pub enum ApiVersion {
    /// The only accepted apiVersion, spelled `ftsell.de/v1beta1` on the wire
    FtsellDeV1beta1,
}

/// Possible values for the `kind` field of a pass secret
#[derive(Copy, Clone, Debug, Hash, PartialEq, Eq, Structural)]
pub enum Kind {
    /// The only accepted kind, spelled `PassSecret` on the wire
    PassSecret,
}

} // verus!
