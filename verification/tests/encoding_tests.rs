use kustomize_pass::encoding::hex_encode;
use kustomize_pass::encoding::strip_trailing_newline;
use kustomize_pass::k8s_types::pass_source::GitPassSource;

#[test]
fn hex_encodes_known_bytes() {
    assert_eq!(hex_encode(&vec![0xbe, 0xef]), "beef");
    assert_eq!(hex_encode(&vec![0x00]), "00");
    assert_eq!(hex_encode(&vec![]), "");
    assert_eq!(hex_encode(&vec![0x0f, 0xf0, 0x5a]), "0ff05a");
}

#[test]
fn strip_removes_exactly_one_trailing_newline() {
    assert_eq!(strip_trailing_newline(String::from("hunter2\n")), "hunter2");
    assert_eq!(strip_trailing_newline(String::from("hunter2")), "hunter2");
    assert_eq!(strip_trailing_newline(String::from("hunter2\n\n")), "hunter2\n");
    assert_eq!(strip_trailing_newline(String::from("\n")), "");
    assert_eq!(strip_trailing_newline(String::from("")), "");
    assert_eq!(strip_trailing_newline(String::from("a\nb")), "a\nb");
}

#[test]
fn mirror_dir_name_is_deterministic() {
    let a = GitPassSource { url: String::from("https://example.com/store.git") };
    let b = GitPassSource { url: String::from("https://example.com/store.git") };
    assert_eq!(a.unique_dir_name(), b.unique_dir_name());
}

#[test]
fn mirror_dir_name_has_expected_shape() {
    let s = GitPassSource { url: String::from("git@example.com:store.git") };
    let name = s.unique_dir_name();
    assert!(name.starts_with("password-store-"));
    // 15 prefix characters plus two hex digits for each of the 12 digest bytes
    assert_eq!(name.len(), 15 + 24);
    assert!(name[15..].chars().all(|c| c.is_ascii_hexdigit() && !c.is_ascii_uppercase()));
}

#[test]
fn mirror_dir_names_distinct_over_sample() {
    let mut names = std::collections::HashSet::new();
    for i in 0..300 {
        let s = GitPassSource { url: format!("https://example.com/repo-{}.git", i) };
        assert!(names.insert(s.unique_dir_name()));
    }
    assert_eq!(names.len(), 300);
}

#[test]
fn mirror_path_ends_with_unique_dir_name() {
    let s = GitPassSource { url: String::from("https://example.com/store.git") };
    let name = s.unique_dir_name();
    if let Some(path) = s.unique_path() {
        assert!(path.ends_with(&format!("/{}", name)));
    }
}
