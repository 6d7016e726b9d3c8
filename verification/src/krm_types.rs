//! Types defined by the KRM function specification, used for program input
//! and output in their plain form

use vstd::prelude::*;

verus! {

/// The input wire format for KRM functions
#[derive(Debug)]
pub struct InputResourceList {
    /// Always `config.kubernetes.io/v1` or `config.kubernetes.io/v1beta1`
    pub api_version: String,

    /// A list of serialized Kubernetes objects
    pub items: Vec<String>,

    /// An optional serialized Kubernetes object for passing arguments to a
    /// function invocation
    pub function_config: Option<String>,

    /// Always `ResourceList`
    pub kind: String,
}

/// Why an incoming specification was rejected before any work was done
#[derive(Copy, Clone, Debug, PartialEq, Eq, Structural)]
pub enum InvalidSpecification {
    /// The apiVersion is not one this function accepts
    UnsupportedApiVersion,

    /// The kind is not `ResourceList`
    UnsupportedKind,
}

/// Validates the type identity of an incoming resource list, immediately
/// after deserialization: the apiVersion must be one of the two accepted
/// spellings and the kind must be `ResourceList`. Anything else is rejected
/// with a typed error, the apiVersion being checked first.
pub fn validate_resource_list_id(api_version: &str, kind: &str) -> (r: Result<
    (),
    InvalidSpecification,
>)
    ensures
        r is Ok <==> ((api_version@ == "config.kubernetes.io/v1"@ || api_version@
            == "config.kubernetes.io/v1beta1"@) && kind@ == "ResourceList"@),
        (r is Err && r->Err_0 == InvalidSpecification::UnsupportedApiVersion) <==> (api_version@
            != "config.kubernetes.io/v1"@ && api_version@ != "config.kubernetes.io/v1beta1"@),
        (r is Err && r->Err_0 == InvalidSpecification::UnsupportedKind) <==> ((api_version@
            == "config.kubernetes.io/v1"@ || api_version@ == "config.kubernetes.io/v1beta1"@)
            && kind@ != "ResourceList"@),
{
    let av: String = api_version.to_owned();
    let v1: String = "config.kubernetes.io/v1".to_owned();
    let v1beta1: String = "config.kubernetes.io/v1beta1".to_owned();
    let k: String = kind.to_owned();
    let rl: String = "ResourceList".to_owned();
    if !(av == v1) && !(av == v1beta1) {
        Err(InvalidSpecification::UnsupportedApiVersion)
    } else if !(k == rl) {
        Err(InvalidSpecification::UnsupportedKind)
    } else {
        Ok(())
    }
}

/// Necessary metadata for referencing a Kubernetes object
#[derive(Debug)]
pub struct KubernetesResourceRef {
    /// `apiVersion` of the referenced object
    pub api_version: String,

    /// `kind` of the referenced object
    pub kind: String,

    /// Namespace in which the referenced object lives
    pub namespace: Option<String>,

    /// Name of the referenced object
    pub name: String,
}

/// Necessary metadata for referencing a YAML file in the filesystem
#[derive(Debug)]
pub struct FileRef {
    /// The OS-agnostic, slash-delimited, relative path
    pub path: String,

    /// Index of the object in a multi-object YAML file
    pub index: Option<usize>,
}

} // verus!
