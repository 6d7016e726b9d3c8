//! The merge behavior that the orchestrator applies to generated resources

use vstd::prelude::*;

verus! {

/// Possible behavior which kustomize will use when handling generated resources.
/// Defaults to `Create`.
#[derive(Copy, Clone, Debug, Hash, PartialEq, Eq, Structural)]
pub enum GeneratorBehavior {
    /// Create the resource and fail if another one already exists
    Create,

    /// Completely replace an existing resource with the generated one
    Replace,

    /// Try to merge the generated and existing resource
    Merge,
}

/// The wire label of a behavior, as the orchestrator spells it.
pub open spec fn behavior_label(b: GeneratorBehavior) -> Seq<char> {
    match b {
        GeneratorBehavior::Create => "create"@,
        GeneratorBehavior::Replace => "replace"@,
        GeneratorBehavior::Merge => "merge"@,
    }
}

impl GeneratorBehavior {
    /// The wire label of this behavior (`create`, `replace` or `merge`).
    pub fn as_str(&self) -> (r: &'static str)
        ensures
            r@ == behavior_label(*self),
    {
        match self {
            GeneratorBehavior::Create => "create",
            GeneratorBehavior::Replace => "replace",
            GeneratorBehavior::Merge => "merge",
        }
    }
}

impl Default for GeneratorBehavior {
    /// The default merge behavior is `Create`.
    fn default() -> (r: Self)
        ensures
            r == GeneratorBehavior::Create,
    {
        GeneratorBehavior::Create
    }
}

} // verus!
