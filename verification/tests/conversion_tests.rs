use kustomize_pass::k8s_types::object_meta::K8sObjectMeta;
use kustomize_pass::k8s_types::object_meta::strip_local_config_annotations;
use kustomize_pass::k8s_types::pass_secret::ApiVersion;
use kustomize_pass::k8s_types::pass_secret::Kind;
use kustomize_pass::k8s_types::pass_secret::V1Beta1PassSecret;
use kustomize_pass::k8s_types::type_id::K8sTypeId;
use kustomize_pass::krm_types::validate_resource_list_id;
use kustomize_pass::krm_types::InvalidSpecification;
use kustomize_pass::secret_conversion::assemble;
use kustomize_pass::secret_conversion::classify;
use kustomize_pass::secret_conversion::prepare_metadata;
use kustomize_pass::secret_conversion::EntryError;
use kustomize_pass::secret_conversion::SecretValue;
use kustomize_pass::GeneratorBehavior;
use kustomize_pass::PassSource;

const BEHAVIOR_KEY: &str = "kustomize.config.k8s.io/behavior";
const LOCAL_CONFIG_KEY: &str = "config.kubernetes.io/local-config";
const FUNCTION_KEY: &str = "config.kubernetes.io/function";

fn meta_with(annotations: Option<Vec<(String, String)>>) -> K8sObjectMeta {
    K8sObjectMeta {
        name: String::from("my-secret"),
        namespace: Some(String::from("default")),
        labels: None,
        annotations,
    }
}

fn pass_secret(
    annotations: Option<Vec<(String, String)>>,
    behavior: GeneratorBehavior,
    data: Vec<(String, String)>,
) -> V1Beta1PassSecret {
    V1Beta1PassSecret {
        k8s_type_id: K8sTypeId { api_version: ApiVersion::FtsellDeV1beta1, kind: Kind::PassSecret },
        metadata: meta_with(annotations),
        source: PassSource::Local,
        data,
        immutable: Some(true),
        secret_type: Some(String::from("Opaque")),
        behavior,
    }
}

fn pair(k: &str, v: &str) -> (String, String) {
    (String::from(k), String::from(v))
}

#[test]
fn classifies_text_and_strips_newline() {
    match classify(&b"hunter2\n".to_vec()) {
        SecretValue::Text(s) => assert_eq!(s, "hunter2"),
        SecretValue::Binary(_) => panic!("utf-8 bytes classified as binary"),
    }
}

#[test]
fn classifies_text_without_newline_verbatim() {
    match classify(&b"hunter2".to_vec()) {
        SecretValue::Text(s) => assert_eq!(s, "hunter2"),
        SecretValue::Binary(_) => panic!("utf-8 bytes classified as binary"),
    }
}

#[test]
fn classifies_binary_as_base64() {
    match classify(&vec![0xff, 0xfe]) {
        SecretValue::Text(_) => panic!("non-utf-8 bytes classified as text"),
        SecretValue::Binary(s) => assert_eq!(s, "//4="),
    }
}

#[test]
fn classifies_empty_bytes_as_empty_text() {
    match classify(&vec![]) {
        SecretValue::Text(s) => assert_eq!(s, ""),
        SecretValue::Binary(_) => panic!("empty bytes classified as binary"),
    }
}

#[test]
fn classifies_multibyte_text() {
    match classify(&String::from("p\u{e4}ss\n").into_bytes()) {
        SecretValue::Text(s) => assert_eq!(s, "p\u{e4}ss"),
        SecretValue::Binary(_) => panic!("utf-8 bytes classified as binary"),
    }
}

#[test]
fn stripping_removes_reserved_annotations_only() {
    let anns = vec![
        pair(LOCAL_CONFIG_KEY, "true"),
        pair("keep-me", "yes"),
        pair(FUNCTION_KEY, "container"),
    ];
    let out = strip_local_config_annotations(anns);
    assert_eq!(out, vec![pair("keep-me", "yes")]);
}

#[test]
fn prepare_metadata_strips_reserved_annotations() {
    let meta = meta_with(Some(vec![
        pair(LOCAL_CONFIG_KEY, "true"),
        pair(FUNCTION_KEY, "container"),
        pair("other", "v"),
    ]));
    let out = prepare_metadata(meta, GeneratorBehavior::Create);
    let anns = out.annotations.expect("annotations kept");
    assert!(anns.iter().all(|(k, _)| k != LOCAL_CONFIG_KEY && k != FUNCTION_KEY));
    assert_eq!(anns, vec![pair("other", "v")]);
}

#[test]
fn prepare_metadata_tags_replace_behavior() {
    let meta = meta_with(Some(vec![pair("other", "v")]));
    let out = prepare_metadata(meta, GeneratorBehavior::Replace);
    let anns = out.annotations.expect("annotations kept");
    assert_eq!(anns, vec![pair("other", "v"), pair(BEHAVIOR_KEY, "replace")]);
}

#[test]
fn prepare_metadata_tags_merge_behavior_creating_map() {
    let meta = meta_with(None);
    let out = prepare_metadata(meta, GeneratorBehavior::Merge);
    let anns = out.annotations.expect("annotation map created");
    assert_eq!(anns, vec![pair(BEHAVIOR_KEY, "merge")]);
}

#[test]
fn prepare_metadata_default_behavior_adds_no_annotation() {
    let out = prepare_metadata(meta_with(None), GeneratorBehavior::Create);
    assert!(out.annotations.is_none());
    let out = prepare_metadata(meta_with(Some(vec![pair("other", "v")])), GeneratorBehavior::Create);
    let anns = out.annotations.expect("annotations kept");
    assert!(anns.iter().all(|(k, _)| k != BEHAVIOR_KEY));
}

#[test]
fn assemble_partitions_text_and_binary() {
    let input = pass_secret(
        None,
        GeneratorBehavior::Create,
        vec![pair("password", "web/login"), pair("keyfile", "web/keyfile")],
    );
    let payloads = vec![Ok(b"hunter2\n".to_vec()), Ok(vec![0xff, 0xfe])];
    let secret = assemble(input, payloads).expect("assembly succeeds");
    assert_eq!(secret.string_data, vec![pair("password", "hunter2")]);
    assert_eq!(secret.data, vec![pair("keyfile", "//4=")]);
    assert_eq!(secret.immutable, Some(true));
    assert_eq!(secret.secret_type, Some(String::from("Opaque")));
    assert_eq!(secret.k8s_type_id.api_version, "v1");
    assert_eq!(secret.k8s_type_id.kind, "Secret");
    assert_eq!(secret.metadata.name, "my-secret");
}

#[test]
fn assemble_fails_whole_on_entry_error() {
    let input = pass_secret(
        None,
        GeneratorBehavior::Create,
        vec![pair("a", "store/a"), pair("b", "store/b"), pair("c", "store/c")],
    );
    // resolution stops at the failing entry, so no payload follows it
    let payloads = vec![Ok(b"fine\n".to_vec()), Err(EntryError::EntryIsDirectory)];
    let failure = match assemble(input, payloads) {
        Ok(_) => panic!("assembly succeeded past a failing entry"),
        Err(f) => f,
    };
    assert_eq!(failure.key, "b");
    assert_eq!(failure.name, "store/b");
    assert_eq!(failure.error, EntryError::EntryIsDirectory);
}

#[test]
fn assemble_with_no_entries_yields_empty_maps() {
    let input = pass_secret(None, GeneratorBehavior::Create, vec![]);
    let secret = assemble(input, vec![]).expect("assembly succeeds");
    assert!(secret.string_data.is_empty());
    assert!(secret.data.is_empty());
}

#[test]
fn validates_resource_list_type_identity() {
    assert!(validate_resource_list_id("config.kubernetes.io/v1", "ResourceList").is_ok());
    assert!(validate_resource_list_id("config.kubernetes.io/v1beta1", "ResourceList").is_ok());
    assert_eq!(
        validate_resource_list_id("v1", "ResourceList"),
        Err(InvalidSpecification::UnsupportedApiVersion)
    );
    assert_eq!(
        validate_resource_list_id("config.kubernetes.io/v1", "List"),
        Err(InvalidSpecification::UnsupportedKind)
    );
}

#[test]
fn behavior_labels_and_default() {
    assert_eq!(GeneratorBehavior::Create.as_str(), "create");
    assert_eq!(GeneratorBehavior::Replace.as_str(), "replace");
    assert_eq!(GeneratorBehavior::Merge.as_str(), "merge");
    assert_eq!(GeneratorBehavior::default(), GeneratorBehavior::Create);
}
