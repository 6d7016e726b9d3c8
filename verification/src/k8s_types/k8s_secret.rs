//! Type definition for Kubernetes secret resources

use crate::k8s_types::object_meta::K8sObjectMeta;
use crate::k8s_types::type_id::K8sTypeId;
use vstd::prelude::*;

verus! {

/// Type definition for Kubernetes secret resources.
///
/// The two entry maps are kept as association lists of `(key, value)` pairs
/// with unique keys, standing for the string-keyed maps of the wire format.
#[derive(Debug)]
pub struct V1Secret {
    /// Type identification information as apiVersion and kind
    pub k8s_type_id: K8sTypeId,

    /// Standard object's metadata
    pub metadata: K8sObjectMeta,

    /// Binary secret data; every value is a base64 encoded string
    pub data: Vec<(String, String)>,

    /// Non-binary secret data in string form
    pub string_data: Vec<(String, String)>,

    /// Immutable, if set to true, asks that data stored in the secret not be updated
    pub immutable: Option<bool>,

    /// Used to facilitate programmatic handling of secret data
    pub secret_type: Option<String>,
}

impl V1Secret {
    /// Create a new Secret object from the given data and configured constants
    pub fn new(
        metadata: K8sObjectMeta,
        immutable: Option<bool>,
        secret_type: Option<String>,
        string_data: Vec<(String, String)>,
        binary_data: Vec<(String, String)>,
    ) -> (r: Self)
        ensures
            r.metadata == metadata,
            r.immutable == immutable,
            r.secret_type == secret_type,
            r.string_data == string_data,
            r.data == binary_data,
            r.k8s_type_id.api_version@ == "v1"@,
            r.k8s_type_id.kind@ == "Secret"@,
    {
        Self {
            k8s_type_id: K8sTypeId { api_version: "v1".to_owned(), kind: "Secret".to_owned() },
            metadata,
            immutable,
            secret_type,
            string_data,
            data: binary_data,
        }
    }
}

} // verus!
