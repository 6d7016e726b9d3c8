//! Information that identifies an encoded object type

use vstd::prelude::*;

verus! {

/// Information that identifies an encoded object type.
///
/// This is flattened into serialized objects as the `apiVersion` and `kind`
/// fields.
#[derive(Debug, Clone)]
pub struct K8sTypeId<A = String, K = String> {
    /// Kubernetes object apiVersion of this object
    pub api_version: A,

    /// Kind of the kubernetes object
    pub kind: K,
}

} // verus!
