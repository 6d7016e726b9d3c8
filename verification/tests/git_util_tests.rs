use kustomize_pass::git_util::askpass_prompt;
use kustomize_pass::git_util::default_ssh_key_path;
use kustomize_pass::git_util::default_username;
use kustomize_pass::git_util::ensure_synced;
use kustomize_pass::git_util::is_prefix;
use kustomize_pass::git_util::merge_plan;
use kustomize_pass::git_util::strategy_cascade;
use kustomize_pass::git_util::CredentialRequest;
use kustomize_pass::git_util::CredentialStrategy;
use kustomize_pass::git_util::MergeAction;
use kustomize_pass::git_util::MirrorState;
use kustomize_pass::git_util::SyncAction;
use kustomize_pass::git_util::SyncError;

fn request(user_pass: bool, ssh: bool) -> CredentialRequest {
    CredentialRequest {
        url: String::from("https://example.com/store.git"),
        accepts_user_pass: user_pass,
        accepts_ssh_key: ssh,
        username_hint: None,
    }
}

#[test]
fn cascade_for_user_pass_with_askpass() {
    let order = strategy_cascade(&request(true, false), true);
    assert_eq!(
        order,
        vec![
            CredentialStrategy::CredentialHelper,
            CredentialStrategy::AskpassProgram,
            CredentialStrategy::AnonymousDefault,
        ]
    );
}

#[test]
fn cascade_for_user_pass_without_askpass() {
    let order = strategy_cascade(&request(true, false), false);
    assert_eq!(
        order,
        vec![CredentialStrategy::CredentialHelper, CredentialStrategy::AnonymousDefault]
    );
}

#[test]
fn cascade_for_ssh() {
    let order = strategy_cascade(&request(false, true), true);
    assert_eq!(
        order,
        vec![
            CredentialStrategy::SshAgent,
            CredentialStrategy::SshKeyFile,
            CredentialStrategy::AnonymousDefault,
        ]
    );
}

#[test]
fn cascade_for_unsupported_kind_is_anonymous_only() {
    let order = strategy_cascade(&request(false, false), true);
    assert_eq!(order, vec![CredentialStrategy::AnonymousDefault]);
}

#[test]
fn username_defaults_to_git() {
    assert_eq!(default_username(&None), "git");
    assert_eq!(default_username(&Some(String::from("deploy"))), "deploy");
}

#[test]
fn askpass_prompt_spells_field_and_url() {
    assert_eq!(
        askpass_prompt("Username", "https://example.com/store.git"),
        "Username for 'https://example.com/store.git':"
    );
    assert_eq!(
        askpass_prompt("Password", "https://example.com/store.git"),
        "Password for 'https://example.com/store.git':"
    );
}

#[test]
fn ssh_key_path_is_under_home() {
    assert_eq!(default_ssh_key_path("/home/someone"), "/home/someone/.ssh/id_rsa");
}

#[test]
fn merge_plan_cases() {
    assert_eq!(merge_plan(true, false), MergeAction::AlreadyCurrent);
    assert_eq!(merge_plan(true, true), MergeAction::AlreadyCurrent);
    assert_eq!(merge_plan(false, true), MergeAction::FastForward);
    assert_eq!(merge_plan(false, false), MergeAction::Divergence);
}

#[test]
fn prefix_check() {
    assert!(is_prefix(&vec![], &vec![1, 2]));
    assert!(is_prefix(&vec![1, 2], &vec![1, 2]));
    assert!(is_prefix(&vec![1, 2], &vec![1, 2, 3]));
    assert!(!is_prefix(&vec![1, 2, 3], &vec![1, 2]));
    assert!(!is_prefix(&vec![1, 9], &vec![1, 2, 3]));
}

#[test]
fn sync_clones_absent_mirror() {
    let mut state = MirrorState { present: false, history: vec![] };
    let remote = vec![1, 2, 3];
    assert_eq!(ensure_synced(&mut state, &remote), Ok(SyncAction::Cloned));
    assert!(state.present);
    assert_eq!(state.history, remote);
}

#[test]
fn sync_is_idempotent_on_unchanged_remote() {
    let mut state = MirrorState { present: false, history: vec![] };
    let remote = vec![1, 2, 3];
    assert_eq!(ensure_synced(&mut state, &remote), Ok(SyncAction::Cloned));
    let after_first = state.history.clone();
    assert_eq!(ensure_synced(&mut state, &remote), Ok(SyncAction::AlreadyCurrent));
    assert_eq!(state.history, after_first);
}

#[test]
fn sync_fast_forwards_when_remote_advanced() {
    let mut state = MirrorState { present: true, history: vec![1, 2] };
    let remote = vec![1, 2, 3, 4];
    assert_eq!(ensure_synced(&mut state, &remote), Ok(SyncAction::FastForwarded));
    assert_eq!(state.history, remote);
}

#[test]
fn sync_fails_on_divergence_and_changes_nothing() {
    let mut state = MirrorState { present: true, history: vec![1, 2, 9] };
    let remote = vec![1, 2, 3];
    assert_eq!(ensure_synced(&mut state, &remote), Err(SyncError::UnsupportedDivergence));
    assert_eq!(state.history, vec![1, 2, 9]);
    assert!(state.present);
}

#[test]
fn sync_no_op_when_remote_behind() {
    let mut state = MirrorState { present: true, history: vec![1, 2, 3] };
    let remote = vec![1, 2];
    assert_eq!(ensure_synced(&mut state, &remote), Ok(SyncAction::AlreadyCurrent));
    assert_eq!(state.history, vec![1, 2, 3]);
}
