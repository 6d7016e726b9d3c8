//! Conversion of a pass secret specification into a Kubernetes secret:
//! classification of decrypted entry payloads, metadata hygiene, and assembly
//! of the final secret object

use crate::encoding::base64_encode;
use crate::encoding::base64_of;
use crate::encoding::strip_newline;
use crate::encoding::strip_trailing_newline;
use crate::encoding::utf8_decode;
use crate::k8s_types::object_meta::ann_has_key;
use crate::k8s_types::object_meta::ann_has_pair;
use crate::k8s_types::object_meta::ann_keys_unique;
use crate::k8s_types::object_meta::ann_removed;
use crate::k8s_types::object_meta::ann_stripped;
use crate::k8s_types::object_meta::behavior_annotation;
use crate::k8s_types::object_meta::behavior_annotation_key;
use crate::k8s_types::object_meta::function_annotation;
use crate::k8s_types::object_meta::lemma_ann_removed_keys;
use crate::k8s_types::object_meta::lemma_ann_stripped_keys;
use crate::k8s_types::object_meta::local_config_annotation;
use crate::k8s_types::object_meta::remove_annotation;
use crate::k8s_types::object_meta::strip_local_config_annotations;
use crate::k8s_types::object_meta::K8sObjectMeta;
use crate::k8s_types::generator_behavior::behavior_label;
use crate::k8s_types::generator_behavior::GeneratorBehavior;
use crate::k8s_types::k8s_secret::V1Secret;
use crate::k8s_types::pass_secret::V1Beta1PassSecret;
use vstd::prelude::*;
use vstd::utf8::decode_utf8;
use vstd::utf8::valid_utf8;

verus! {

/// A value that is encoded so that it can be used as a value for Kubernetes
/// secrets
#[derive(Debug)]
pub enum SecretValue {
    /// UTF-8 string content, with the store's one trailing newline removed
    Text(String),

    /// Binary content, base64 encoded
    Binary(String),
}

/// Classifies one decrypted entry payload: bytes that decode as UTF-8 become
/// text, with exactly one trailing newline stripped when present; anything
/// else is carried as base64-encoded binary.
pub fn classify(bytes: &Vec<u8>) -> (r: SecretValue)
    ensures
        match r {
            SecretValue::Text(s) => valid_utf8(bytes@) && s@ == strip_newline(
                decode_utf8(bytes@),
            ),
            SecretValue::Binary(s) => !valid_utf8(bytes@) && s@ == base64_of(bytes@),
        },
{
    match utf8_decode(bytes) {
        Some(s) => SecretValue::Text(strip_trailing_newline(s)),
        None => SecretValue::Binary(base64_encode(bytes)),
    }
}

/// How prepared metadata relates to the metadata of the incoming
/// specification: everything but the annotations is carried over unchanged;
/// the two reserved local-configuration annotations are stripped; a
/// non-default behavior is recorded under the orchestrator's behavior
/// annotation (creating the annotation map if absent) while the default
/// behavior adds nothing, so no behavior annotation appears unless the input
/// already carried one.
pub open spec fn metadata_prepared(
    meta: K8sObjectMeta,
    behavior: GeneratorBehavior,
    r: K8sObjectMeta,
) -> bool {
    &&& r.name == meta.name
    &&& r.namespace == meta.namespace
    &&& r.labels == meta.labels
    &&& (behavior == GeneratorBehavior::Create && meta.annotations is None) ==> r.annotations
        is None
    &&& (behavior == GeneratorBehavior::Create && meta.annotations is Some) ==> (r.annotations
        matches Some(w) && w@ == ann_stripped(meta.annotations->Some_0@))
    &&& behavior != GeneratorBehavior::Create ==> (r.annotations matches Some(w) && {
        let base = match meta.annotations {
            Some(v) => ann_stripped(v@),
            None => Seq::empty(),
        };
        &&& w@.len() == ann_removed(base, behavior_annotation()).len() + 1
        &&& w@.drop_last() == ann_removed(base, behavior_annotation())
        &&& w@.last().0@ == behavior_annotation()
        &&& w@.last().1@ == behavior_label(behavior)
    })
    &&& (r.annotations matches Some(w) ==> !ann_has_key(w@, local_config_annotation())
        && !ann_has_key(w@, function_annotation()))
    &&& behavior != GeneratorBehavior::Create ==> ann_has_pair(
        r.annotations->Some_0@,
        behavior_annotation(),
        behavior_label(behavior),
    )
    &&& (behavior == GeneratorBehavior::Create && match meta.annotations {
        Some(v) => !ann_has_key(v@, behavior_annotation()),
        None => true,
    }) ==> match r.annotations {
        Some(w) => !ann_has_key(w@, behavior_annotation()),
        None => true,
    }
}

/// Applies the metadata edits that precede entry resolution: annotation
/// hygiene and merge-behavior tagging, as [`metadata_prepared`] states them.
pub fn prepare_metadata(meta: K8sObjectMeta, behavior: GeneratorBehavior) -> (r: K8sObjectMeta)
    ensures
        metadata_prepared(meta, behavior, r),
{
    let K8sObjectMeta { name, namespace, labels, annotations } = meta;
    let ghost orig_annotations = annotations;
    let stripped_opt: Option<Vec<(String, String)>> = match annotations {
        Some(v) => {
            proof {
                lemma_ann_stripped_keys(v@);
            }
            Some(strip_local_config_annotations(v))
        },
        None => None,
    };
    let new_annotations: Option<Vec<(String, String)>> = if matches!(
        behavior,
        GeneratorBehavior::Create,
    ) {
        stripped_opt
    } else {
        let base: Vec<(String, String)> = match stripped_opt {
            Some(v) => v,
            None => Vec::new(),
        };
        let ghost base_view = base@;
        let mut w = remove_annotation(base, behavior_annotation_key());
        let ghost removed_view = w@;
        let key_string: String = behavior_annotation_key().to_owned();
        let value_string: String = behavior.as_str().to_owned();
        w.push((key_string, value_string));
        proof {
            lemma_reserved_keys_distinct();
            lemma_ann_removed_keys(base_view, behavior_annotation());
            assert(w@.drop_last() =~= removed_view);
            assert(w@.last().0@ == behavior_annotation());
            assert(w@.last().1@ == behavior_label(behavior));
            assert(w@[w@.len() - 1].0@ == behavior_annotation());
            assert(ann_has_pair(w@, behavior_annotation(), behavior_label(behavior)));
            assert(!ann_has_key(base_view, local_config_annotation()));
            assert(!ann_has_key(base_view, function_annotation()));
            assert(!ann_has_key(w@, local_config_annotation())) by {
                if ann_has_key(w@, local_config_annotation()) {
                    let i = choose|i: int|
                        0 <= i < w@.len() && w@[i].0@ == local_config_annotation();
                    if i < w@.len() - 1 {
                        assert(removed_view[i] == w@[i]);
                        assert(ann_has_key(removed_view, local_config_annotation()));
                    }
                }
            }
            assert(!ann_has_key(w@, function_annotation())) by {
                if ann_has_key(w@, function_annotation()) {
                    let i = choose|i: int| 0 <= i < w@.len() && w@[i].0@ == function_annotation();
                    if i < w@.len() - 1 {
                        assert(removed_view[i] == w@[i]);
                        assert(ann_has_key(removed_view, function_annotation()));
                    }
                }
            }
        }
        Some(w)
    };
    K8sObjectMeta { name, namespace, labels, annotations: new_annotations }
}

/// Why one store entry failed to resolve
#[derive(Copy, Clone, Debug, PartialEq, Eq, Structural)]
pub enum EntryError {
    /// The named path in the store resolves to a directory, not a leaf entry
    EntryIsDirectory,

    /// The store holds no entry of the given name
    EntryNotFound,

    /// The store client could not decrypt the entry
    DecryptionFailed,
}

/// Failure of a whole assembly: the entry whose resolution failed, by output
/// key and store entry name, and why
#[derive(Debug)]
pub struct EntryFailure {
    /// The output key whose entry failed to resolve
    pub key: String,

    /// The store entry name that failed to resolve
    pub name: String,

    /// Why the entry failed to resolve
    pub error: EntryError,
}

/// The views of an association list's pairs.
pub open spec fn pair_views(m: Seq<(String, String)>) -> Seq<(Seq<char>, Seq<char>)> {
    m.map_values(|p: (String, String)| (p.0@, p.1@))
}

/// The text partition of resolved entries: for every entry whose payload
/// decodes as UTF-8, its key paired with the decoded text (one trailing
/// newline stripped), in entry order.
pub open spec fn text_entries(
    data: Seq<(String, String)>,
    payloads: Seq<Result<Vec<u8>, EntryError>>,
) -> Seq<(Seq<char>, Seq<char>)>
    decreases data.len(),
{
    if data.len() == 0 {
        Seq::empty()
    } else {
        let rest = text_entries(data.drop_last(), payloads.drop_last());
        if payloads.last() is Ok && valid_utf8(payloads.last()->Ok_0@) {
            rest.push(
                (data.last().0@, strip_newline(decode_utf8(payloads.last()->Ok_0@))),
            )
        } else {
            rest
        }
    }
}

/// The binary partition of resolved entries: for every entry whose payload is
/// not UTF-8, its key paired with the base64 encoding of the raw bytes, in
/// entry order.
pub open spec fn binary_entries(
    data: Seq<(String, String)>,
    payloads: Seq<Result<Vec<u8>, EntryError>>,
) -> Seq<(Seq<char>, Seq<char>)>
    decreases data.len(),
{
    if data.len() == 0 {
        Seq::empty()
    } else {
        let rest = binary_entries(data.drop_last(), payloads.drop_last());
        if payloads.last() is Ok && !valid_utf8(payloads.last()->Ok_0@) {
            rest.push((data.last().0@, base64_of(payloads.last()->Ok_0@)))
        } else {
            rest
        }
    }
}

/// Assembles the final secret from a specification and the store client's
/// result for each entry, in entry order. The payloads may stop at the first
/// failed entry; resolution failure of any entry fails the whole assembly,
/// carrying that entry's key, store name and error, and no partial secret is
/// produced. On success every entry lands in exactly one of the text and
/// binary maps, as classification decides, and the metadata carries the edits
/// of [`metadata_prepared`].
pub fn assemble(input: V1Beta1PassSecret, payloads: Vec<Result<Vec<u8>, EntryError>>) -> (r:
    Result<V1Secret, EntryFailure>)
    requires
        payloads@.len() <= input.data@.len(),
        payloads@.len() < input.data@.len() ==> (payloads@.len() > 0 && payloads@.last() is Err),
    ensures
        match r {
            Ok(s) => {
                &&& payloads@.len() == input.data@.len()
                &&& forall|i: int| 0 <= i < payloads@.len() ==> payloads@[i] is Ok
                &&& pair_views(s.string_data@) == text_entries(input.data@, payloads@)
                &&& pair_views(s.data@) == binary_entries(input.data@, payloads@)
                &&& metadata_prepared(input.metadata, input.behavior, s.metadata)
                &&& s.immutable == input.immutable
                &&& s.secret_type == input.secret_type
                &&& s.k8s_type_id.api_version@ == "v1"@
                &&& s.k8s_type_id.kind@ == "Secret"@
            },
            Err(f) => exists|i: int|
                {
                    &&& 0 <= i < payloads@.len()
                    &&& #[trigger] payloads@[i] is Err
                    &&& forall|j: int| 0 <= j < i ==> payloads@[j] is Ok
                    &&& f.error == payloads@[i]->Err_0
                    &&& f.key@ == input.data@[i].0@
                    &&& f.name@ == input.data@[i].1@
                },
        },
{
    let V1Beta1PassSecret {
        k8s_type_id: _,
        metadata,
        source: _,
        data,
        immutable,
        secret_type,
        behavior,
    } = input;
    let mut text: Vec<(String, String)> = Vec::new();
    let mut binary: Vec<(String, String)> = Vec::new();
    let n = payloads.len();
    let mut i: usize = 0;
    proof {
        assert(pair_views(text@) =~= text_entries(data@.take(0int), payloads@.take(0int)));
        assert(pair_views(binary@) =~= binary_entries(data@.take(0int), payloads@.take(0int)));
    }
    while i < n
        invariant
            n == payloads@.len() <= data@.len(),
            data@ == input.data@,
            payloads@.len() < data@.len() ==> (payloads@.len() > 0 && payloads@.last() is Err),
            0 <= i <= n,
            forall|j: int| 0 <= j < i ==> payloads@[j] is Ok,
            pair_views(text@) == text_entries(data@.take(i as int), payloads@.take(i as int)),
            pair_views(binary@) == binary_entries(
                data@.take(i as int),
                payloads@.take(i as int),
            ),
        decreases n - i,
    {
        let entry = &data[i];
        proof {
            assert(data@.take(i + 1).drop_last() =~= data@.take(i as int));
            assert(payloads@.take(i + 1).drop_last() =~= payloads@.take(i as int));
            assert(data@.take(i + 1).last() == data@[i as int]);
            assert(payloads@.take(i + 1).last() == payloads@[i as int]);
        }
        match &payloads[i] {
            Err(e) => {
                let f = EntryFailure { key: entry.0.clone(), name: entry.1.clone(), error: *e };
                proof {
                    let wi = i as int;
                    assert({
                        &&& 0 <= wi < payloads@.len()
                        &&& payloads@[wi] is Err
                        &&& forall|j: int| 0 <= j < wi ==> payloads@[j] is Ok
                        &&& f.error == payloads@[wi]->Err_0
                        &&& f.key@ == input.data@[wi].0@
                        &&& f.name@ == input.data@[wi].1@
                    });
                }
                return Err(f);
            },
            Ok(bytes) => {
                match classify(bytes) {
                    SecretValue::Text(s) => {
                        text.push((entry.0.clone(), s));
                    },
                    SecretValue::Binary(s) => {
                        binary.push((entry.0.clone(), s));
                    },
                }
                proof {
                    assert(pair_views(text@) =~= text_entries(
                        data@.take(i + 1),
                        payloads@.take(i + 1),
                    ));
                    assert(pair_views(binary@) =~= binary_entries(
                        data@.take(i + 1),
                        payloads@.take(i + 1),
                    ));
                }
            },
        }
        i = i + 1;
    }
    proof {
        assert(payloads@.len() == data@.len());
        assert(payloads@.take(n as int) =~= payloads@);
        assert(data@.take(n as int) =~= data@);
    }
    let prepared = prepare_metadata(metadata, behavior);
    Ok(V1Secret::new(prepared, immutable, secret_type, text, binary))
}

/// True when the partitioned entries hold a pair with the given key.
pub open spec fn entries_has_key(m: Seq<(Seq<char>, Seq<char>)>, k: Seq<char>) -> bool {
    exists|i: int| 0 <= i < m.len() && m[i].0 == k
}

/// True when no key occurs twice among the partitioned entries.
pub open spec fn entries_keys_unique(m: Seq<(Seq<char>, Seq<char>)>) -> bool {
    forall|i: int, j: int| 0 <= i < j < m.len() ==> m[i].0 != m[j].0
}

/// Every key of either partition is a key of the specification's entries.
proof fn lemma_partition_keys(
    data: Seq<(String, String)>,
    payloads: Seq<Result<Vec<u8>, EntryError>>,
)
    ensures
        forall|k: Seq<char>|
            entries_has_key(text_entries(data, payloads), k) ==> ann_has_key(data, k),
        forall|k: Seq<char>|
            entries_has_key(binary_entries(data, payloads), k) ==> ann_has_key(data, k),
    decreases data.len(),
{
    if data.len() > 0 {
        lemma_partition_keys(data.drop_last(), payloads.drop_last());
        let t = text_entries(data, payloads);
        let tr = text_entries(data.drop_last(), payloads.drop_last());
        assert forall|k: Seq<char>| entries_has_key(t, k) implies ann_has_key(data, k) by {
            let i = choose|i: int| 0 <= i < t.len() && t[i].0 == k;
            if i < tr.len() {
                assert(t[i] == tr[i]);
                assert(entries_has_key(tr, k));
                assert(ann_has_key(data.drop_last(), k));
                let j = choose|j: int|
                    0 <= j < data.drop_last().len() && data.drop_last()[j].0@ == k;
                assert(data[j].0@ == k);
            } else {
                assert(t[i].0 == data.last().0@);
                assert(data[data.len() - 1].0@ == k);
            }
        }
        let b = binary_entries(data, payloads);
        let br = binary_entries(data.drop_last(), payloads.drop_last());
        assert forall|k: Seq<char>| entries_has_key(b, k) implies ann_has_key(data, k) by {
            let i = choose|i: int| 0 <= i < b.len() && b[i].0 == k;
            if i < br.len() {
                assert(b[i] == br[i]);
                assert(entries_has_key(br, k));
                assert(ann_has_key(data.drop_last(), k));
                let j = choose|j: int|
                    0 <= j < data.drop_last().len() && data.drop_last()[j].0@ == k;
                assert(data[j].0@ == k);
            } else {
                assert(b[i].0 == data.last().0@);
                assert(data[data.len() - 1].0@ == k);
            }
        }
    }
}

/// Law: when every entry resolved and the entry keys are unique, every key of
/// the specification appears in exactly one of the text and binary
/// partitions — in the text partition exactly when its payload decodes as
/// UTF-8, and in the binary partition exactly otherwise. No key is lost,
/// none lands on both sides, none occurs twice, and the partitions together
/// hold exactly one entry per specification key.
pub proof fn lemma_entries_partition(
    data: Seq<(String, String)>,
    payloads: Seq<Result<Vec<u8>, EntryError>>,
)
    requires
        data.len() == payloads.len(),
        forall|i: int| 0 <= i < payloads.len() ==> #[trigger] payloads[i] is Ok,
        ann_keys_unique(data),
    ensures
        forall|i: int|
            0 <= i < data.len() ==> (#[trigger] entries_has_key(
                text_entries(data, payloads),
                data[i].0@,
            ) <==> valid_utf8(payloads[i]->Ok_0@)),
        forall|i: int|
            0 <= i < data.len() ==> (#[trigger] entries_has_key(
                binary_entries(data, payloads),
                data[i].0@,
            ) <==> !valid_utf8(payloads[i]->Ok_0@)),
        text_entries(data, payloads).len() + binary_entries(data, payloads).len() == data.len(),
        entries_keys_unique(text_entries(data, payloads)),
        entries_keys_unique(binary_entries(data, payloads)),
    decreases data.len(),
{
    if data.len() > 0 {
        let dl = data.drop_last();
        let pl = payloads.drop_last();
        assert(forall|i: int| 0 <= i < pl.len() ==> #[trigger] pl[i] is Ok);
        assert(ann_keys_unique(dl)) by {
            assert forall|i: int, j: int| 0 <= i < j < dl.len() implies dl[i].0@ != dl[j].0@ by {
                assert(data[i].0@ != data[j].0@);
            }
        }
        lemma_entries_partition(dl, pl);
        lemma_partition_keys(dl, pl);
        let t = text_entries(data, payloads);
        let tr = text_entries(dl, pl);
        let b = binary_entries(data, payloads);
        let br = binary_entries(dl, pl);
        let last_key = data.last().0@;
        let last_text = valid_utf8(payloads.last()->Ok_0@);
        // the last key is new to both partial partitions
        assert(!entries_has_key(tr, last_key) && !entries_has_key(br, last_key)) by {
            if entries_has_key(tr, last_key) || entries_has_key(br, last_key) {
                assert(ann_has_key(dl, last_key));
                let j = choose|j: int| 0 <= j < dl.len() && dl[j].0@ == last_key;
                assert(data[j].0@ == data[data.len() - 1].0@);
            }
        }
        assert forall|i: int| 0 <= i < data.len() implies (#[trigger] entries_has_key(
            t,
            data[i].0@,
        ) <==> valid_utf8(payloads[i]->Ok_0@)) by {
            let ki = data[i].0@;
            if i < data.len() - 1 {
                assert(dl[i].0@ == ki && pl[i] == payloads[i]);
                assert(ki != last_key);
                assert(entries_has_key(tr, ki) <==> valid_utf8(payloads[i]->Ok_0@));
                assert(entries_has_key(t, ki) <==> entries_has_key(tr, ki)) by {
                    if last_text {
                        assert(t.drop_last() =~= tr);
                        assert(t.last().0 == last_key);
                    }
                    lemma_push_has_key(tr, t, ki, last_key, last_text);
                }
            } else {
                if last_text {
                    assert(t[t.len() - 1].0 == last_key);
                    assert(entries_has_key(t, ki));
                } else {
                    assert(t == tr);
                    assert(!entries_has_key(t, ki));
                }
            }
        }
        assert forall|i: int| 0 <= i < data.len() implies (#[trigger] entries_has_key(
            b,
            data[i].0@,
        ) <==> !valid_utf8(payloads[i]->Ok_0@)) by {
            let ki = data[i].0@;
            if i < data.len() - 1 {
                assert(dl[i].0@ == ki && pl[i] == payloads[i]);
                assert(ki != last_key);
                assert(entries_has_key(br, ki) <==> !valid_utf8(payloads[i]->Ok_0@));
                assert(entries_has_key(b, ki) <==> entries_has_key(br, ki)) by {
                    if !last_text {
                        assert(b.drop_last() =~= br);
                        assert(b.last().0 == last_key);
                    }
                    lemma_push_has_key(br, b, ki, last_key, !last_text);
                }
            } else {
                if !last_text {
                    assert(b[b.len() - 1].0 == last_key);
                    assert(entries_has_key(b, ki));
                } else {
                    assert(b == br);
                    assert(!entries_has_key(b, ki));
                }
            }
        }
        assert(entries_keys_unique(t)) by {
            if last_text {
                assert forall|i: int, j: int| 0 <= i < j < t.len() implies t[i].0 != t[j].0 by {
                    if j < t.len() - 1 {
                        assert(t[i] == tr[i] && t[j] == tr[j]);
                    } else {
                        assert(t[i] == tr[i]);
                        assert(t[j].0 == last_key);
                        if tr[i].0 == last_key {
                            assert(entries_has_key(tr, last_key));
                        }
                    }
                }
            }
        }
        assert(entries_keys_unique(b)) by {
            if !last_text {
                assert forall|i: int, j: int| 0 <= i < j < b.len() implies b[i].0 != b[j].0 by {
                    if j < b.len() - 1 {
                        assert(b[i] == br[i] && b[j] == br[j]);
                    } else {
                        assert(b[i] == br[i]);
                        assert(b[j].0 == last_key);
                        if br[i].0 == last_key {
                            assert(entries_has_key(br, last_key));
                        }
                    }
                }
            }
        }
    }
}

/// Membership of a key other than the pushed one is unchanged by the push —
/// or by no push at all.
proof fn lemma_push_has_key(
    rest: Seq<(Seq<char>, Seq<char>)>,
    whole: Seq<(Seq<char>, Seq<char>)>,
    k: Seq<char>,
    pushed_key: Seq<char>,
    pushed: bool,
)
    requires
        k != pushed_key,
        pushed ==> whole.len() == rest.len() + 1 && whole.drop_last() == rest && whole.last().0
            == pushed_key,
        !pushed ==> whole == rest,
    ensures
        entries_has_key(whole, k) <==> entries_has_key(rest, k),
{
    if pushed {
        if entries_has_key(whole, k) {
            let i = choose|i: int| 0 <= i < whole.len() && whole[i].0 == k;
            if i < rest.len() {
                assert(rest[i] == whole.drop_last()[i]);
                assert(rest[i].0 == k);
            } else {
                assert(whole[i].0 == pushed_key);
            }
        }
        if entries_has_key(rest, k) {
            let i = choose|i: int| 0 <= i < rest.len() && rest[i].0 == k;
            assert(whole[i] == whole.drop_last()[i]);
            assert(whole[i].0 == k);
        }
    }
}

/// The behavior annotation key differs from both reserved local-configuration
/// keys.
proof fn lemma_reserved_keys_distinct()
    ensures
        behavior_annotation() != local_config_annotation(),
        behavior_annotation() != function_annotation(),
{
    reveal_strlit("kustomize.config.k8s.io/behavior");
    reveal_strlit("config.kubernetes.io/local-config");
    reveal_strlit("config.kubernetes.io/function");
    assert(behavior_annotation()[0] == 'k');
    assert(local_config_annotation()[0] == 'c');
    assert(function_annotation()[0] == 'c');
}

} // verus!
