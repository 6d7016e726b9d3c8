//! Standard object metadata and the annotation edits applied to it
//!
//! Annotations are kept as an association list of `(key, value)` pairs whose
//! keys are unique, standing for the string-keyed map of the wire format.

use vstd::prelude::*;
use vstd::seq_lib::*;

verus! {

/// Standard object's metadata
#[derive(Debug)]
pub struct K8sObjectMeta {
    /// Name, unique within a namespace
    pub name: String,

    /// Namespace defining the space within which the name must be unique
    pub namespace: Option<String>,

    /// Map of string keys and values used to organize and categorize objects
    pub labels: Option<Vec<(String, String)>>,

    /// Unstructured key/value map stored with the resource
    pub annotations: Option<Vec<(String, String)>>,
}

/// The reserved annotation key marking a resource as local-only configuration.
pub open spec fn local_config_annotation() -> Seq<char> {
    "config.kubernetes.io/local-config"@
}

/// The reserved annotation key marking a resource as a function configuration.
pub open spec fn function_annotation() -> Seq<char> {
    "config.kubernetes.io/function"@
}

/// The annotation key that conveys a non-default merge behavior to the orchestrator.
pub open spec fn behavior_annotation() -> Seq<char> {
    "kustomize.config.k8s.io/behavior"@
}

/// The annotation key that conveys a non-default merge behavior, as a literal.
pub fn behavior_annotation_key() -> (r: &'static str)
    ensures
        r@ == behavior_annotation(),
{
    "kustomize.config.k8s.io/behavior"
}

/// True when the association list holds a pair with the given key.
pub open spec fn ann_has_key(m: Seq<(String, String)>, k: Seq<char>) -> bool {
    exists|i: int| 0 <= i < m.len() && m[i].0@ == k
}

/// True when the association list holds the given pair.
pub open spec fn ann_has_pair(m: Seq<(String, String)>, k: Seq<char>, v: Seq<char>) -> bool {
    exists|i: int| 0 <= i < m.len() && m[i].0@ == k && m[i].1@ == v
}

/// True when no key occurs twice in the association list.
pub open spec fn ann_keys_unique(m: Seq<(String, String)>) -> bool {
    forall|i: int, j: int| 0 <= i < j < m.len() ==> m[i].0@ != m[j].0@
}

/// The association list with every pair of the given key removed.
pub open spec fn ann_removed(m: Seq<(String, String)>, k: Seq<char>) -> Seq<(String, String)> {
    m.filter(|p: (String, String)| p.0@ != k)
}

/// The association list with the two reserved local-configuration keys removed.
pub open spec fn ann_stripped(m: Seq<(String, String)>) -> Seq<(String, String)> {
    m.filter(
        (|p: (String, String)|
            p.0@ != local_config_annotation() && p.0@ != function_annotation()),
    )
}

/// One unfolding step of `filter` along `take`: filtering `i + 1` elements is
/// filtering `i` of them, plus the element at `i` when the predicate admits it.
proof fn lemma_filter_take_step(
    s: Seq<(String, String)>,
    pred: spec_fn((String, String)) -> bool,
    i: int,
)
    requires
        0 <= i < s.len(),
    ensures
        s.take(i + 1).filter(pred) == if pred(s[i]) {
            s.take(i).filter(pred).push(s[i])
        } else {
            s.take(i).filter(pred)
        },
{
    reveal(Seq::filter);
    assert(s.take(i + 1).drop_last() =~= s.take(i));
    assert(s.take(i + 1).last() == s[i]);
}

/// Removal introduces no key: every key of `ann_removed(m, k)` is a key of `m`.
pub proof fn lemma_ann_removed_keys(m: Seq<(String, String)>, k: Seq<char>)
    ensures
        forall|k2: Seq<char>| ann_has_key(ann_removed(m, k), k2) ==> ann_has_key(m, k2),
    decreases m.len(),
{
    reveal(Seq::filter);
    if m.len() > 0 {
        lemma_ann_removed_keys(m.drop_last(), k);
        let s = ann_removed(m, k);
        let sub = ann_removed(m.drop_last(), k);
        assert forall|k2: Seq<char>| ann_has_key(s, k2) implies ann_has_key(m, k2) by {
            let i = choose|i: int| 0 <= i < s.len() && s[i].0@ == k2;
            if i < sub.len() {
                assert(sub[i].0@ == k2);
                assert(ann_has_key(m.drop_last(), k2));
                let j = choose|j: int| 0 <= j < m.drop_last().len() && m.drop_last()[j].0@ == k2;
                assert(m[j].0@ == k2);
            } else {
                assert(s[i] == m.last());
                assert(m[m.len() - 1].0@ == k2);
            }
        }
    }
}

/// Stripping introduces no key: every key of `ann_stripped(m)` is a key of `m`.
pub proof fn lemma_ann_stripped_keys(m: Seq<(String, String)>)
    ensures
        forall|k: Seq<char>| ann_has_key(ann_stripped(m), k) ==> ann_has_key(m, k),
    decreases m.len(),
{
    reveal(Seq::filter);
    if m.len() > 0 {
        lemma_ann_stripped_keys(m.drop_last());
        let s = ann_stripped(m);
        let sub = ann_stripped(m.drop_last());
        assert forall|k: Seq<char>| ann_has_key(s, k) implies ann_has_key(m, k) by {
            let i = choose|i: int| 0 <= i < s.len() && s[i].0@ == k;
            if i < sub.len() {
                assert(sub[i].0@ == k);
                assert(ann_has_key(m.drop_last(), k));
                let j = choose|j: int| 0 <= j < m.drop_last().len() && m.drop_last()[j].0@ == k;
                assert(m[j].0@ == k);
            } else {
                assert(s[i] == m.last());
                assert(m[m.len() - 1].0@ == k);
            }
        }
    }
}

/// Removes every pair with the given key from the association list.
///
/// The result is exactly the input filtered to the other keys, so a removal
/// on a list with unique keys removes at most one pair and keeps the rest in
/// order.
pub fn remove_annotation(anns: Vec<(String, String)>, key: &str) -> (r: Vec<(String, String)>)
    ensures
        r@ == ann_removed(anns@, key@),
        !ann_has_key(r@, key@),
{
    broadcast use Seq::lemma_filter_pred;

    let key_owned: String = key.to_owned();
    let mut out: Vec<(String, String)> = Vec::new();
    let n = anns.len();
    let mut i: usize = 0;
    proof {
        reveal(Seq::filter);
        assert(anns@.take(0int).filter(|p: (String, String)| p.0@ != key@) =~= Seq::empty());
    }
    while i < n
        invariant
            n == anns@.len(),
            0 <= i <= n,
            out@ == anns@.take(i as int).filter(|p: (String, String)| p.0@ != key@),
            key_owned@ == key@,
        decreases n - i,
    {
        let p = &anns[i];
        proof {
            lemma_filter_take_step(anns@, |p: (String, String)| p.0@ != key@, i as int);
        }
        if !(p.0 == key_owned) {
            out.push((p.0.clone(), p.1.clone()));
            proof {
                assert(out@ =~= anns@.take(i + 1).filter(|p: (String, String)| p.0@ != key@));
            }
        }
        i = i + 1;
    }
    proof {
        assert(anns@.take(n as int) =~= anns@);
    }
    out
}

/// Removes the two reserved local-configuration annotations, leaving every
/// other pair in place and in order. The output carries neither reserved key.
pub fn strip_local_config_annotations(anns: Vec<(String, String)>) -> (r: Vec<(String, String)>)
    ensures
        r@ == ann_stripped(anns@),
        !ann_has_key(r@, local_config_annotation()),
        !ann_has_key(r@, function_annotation()),
{
    broadcast use Seq::lemma_filter_pred;

    let local_config: String = "config.kubernetes.io/local-config".to_owned();
    let function: String = "config.kubernetes.io/function".to_owned();
    let mut out: Vec<(String, String)> = Vec::new();
    let n = anns.len();
    let mut i: usize = 0;
    proof {
        reveal(Seq::filter);
        assert(anns@.take(0int).filter(
            (|p: (String, String)|
                p.0@ != local_config_annotation() && p.0@ != function_annotation()),
        ) =~= Seq::empty());
    }
    while i < n
        invariant
            n == anns@.len(),
            0 <= i <= n,
            out@ == anns@.take(i as int).filter(
                (|p: (String, String)|
                    p.0@ != local_config_annotation() && p.0@ != function_annotation()),
            ),
            local_config@ == local_config_annotation(),
            function@ == function_annotation(),
        decreases n - i,
    {
        let p = &anns[i];
        proof {
            lemma_filter_take_step(
                anns@,
                (|p: (String, String)|
                    p.0@ != local_config_annotation() && p.0@ != function_annotation()),
                i as int,
            );
        }
        if !(p.0 == local_config) && !(p.0 == function) {
            out.push((p.0.clone(), p.1.clone()));
            proof {
                assert(out@ =~= anns@.take(i + 1).filter(
                    (|p: (String, String)|
                        p.0@ != local_config_annotation() && p.0@ != function_annotation()),
                ));
            }
        }
        i = i + 1;
    }
    proof {
        assert(anns@.take(n as int) =~= anns@);
    }
    out
}

} // verus!
