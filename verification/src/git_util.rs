//! The credential strategy cascade and the mirror-synchronization state machine
//!
//! The network operations themselves (clone, fetch, checkout) are performed by
//! the surrounding binary; this module decides what to do. Credentials are
//! chosen by an ordered cascade of strategies, and a fetched remote history is
//! merged only when the local history can fast-forward onto it.

use vstd::prelude::*;
use vstd::string::StringExecFns;

verus! {

/// One remote operation's request for authentication material
#[derive(Debug)]
pub struct CredentialRequest {
    /// The URL of the remote the operation addresses
    pub url: String,

    /// Whether the remote accepts plain username/password credentials
    pub accepts_user_pass: bool,

    /// Whether the remote accepts SSH key credentials
    pub accepts_ssh_key: bool,

    /// A username taken from the URL, if it carries one
    pub username_hint: Option<String>,
}

/// One step of the credential cascade
#[derive(Copy, Clone, Debug, PartialEq, Eq, Structural)]
pub enum CredentialStrategy {
    /// Read the configured operating-system credential helper
    CredentialHelper,

    /// Prompt the askpass program named by the environment, once per field
    AskpassProgram,

    /// Ask the SSH agent for a key
    SshAgent,

    /// Use the default SSH key file under the user's home directory
    SshKeyFile,

    /// Anonymous/default credentials; always available as the last resort
    AnonymousDefault,
}

/// The ordered strategies tried for a request: username/password sources when
/// the remote accepts them, otherwise SSH sources when accepted, otherwise
/// nothing — always ending in the anonymous fallback. The askpass prompt is
/// tried only when an askpass program is configured.
pub open spec fn cascade_spec(
    accepts_user_pass: bool,
    accepts_ssh_key: bool,
    askpass_configured: bool,
) -> Seq<CredentialStrategy> {
    if accepts_user_pass {
        if askpass_configured {
            seq![
                CredentialStrategy::CredentialHelper,
                CredentialStrategy::AskpassProgram,
                CredentialStrategy::AnonymousDefault,
            ]
        } else {
            seq![CredentialStrategy::CredentialHelper, CredentialStrategy::AnonymousDefault]
        }
    } else if accepts_ssh_key {
        seq![
            CredentialStrategy::SshAgent,
            CredentialStrategy::SshKeyFile,
            CredentialStrategy::AnonymousDefault,
        ]
    } else {
        seq![CredentialStrategy::AnonymousDefault]
    }
}

/// The ordered list of credential strategies to try for a request.
///
/// The cascade is never empty and always ends in the anonymous fallback, so
/// credential resolution itself always yields some credential; an
/// unauthenticated remote still works and an unsatisfiable one fails only at
/// the subsequent network operation.
pub fn strategy_cascade(req: &CredentialRequest, askpass_configured: bool) -> (r: Vec<
    CredentialStrategy,
>)
    ensures
        r@ == cascade_spec(req.accepts_user_pass, req.accepts_ssh_key, askpass_configured),
        r@.len() >= 1,
        r@.last() == CredentialStrategy::AnonymousDefault,
{
    let mut out: Vec<CredentialStrategy> = Vec::new();
    if req.accepts_user_pass {
        out.push(CredentialStrategy::CredentialHelper);
        if askpass_configured {
            out.push(CredentialStrategy::AskpassProgram);
        }
    } else if req.accepts_ssh_key {
        out.push(CredentialStrategy::SshAgent);
        out.push(CredentialStrategy::SshKeyFile);
    }
    out.push(CredentialStrategy::AnonymousDefault);
    proof {
        assert(out@ =~= cascade_spec(
            req.accepts_user_pass,
            req.accepts_ssh_key,
            askpass_configured,
        ));
    }
    out
}

/// The username used for SSH credentials: the hint from the URL when one is
/// given, otherwise the conventional literal default identity.
pub fn default_username(hint: &Option<String>) -> (r: String)
    ensures
        match hint {
            Some(h) => r@ == h@,
            None => r@ == "git"@,
        },
{
    match hint {
        Some(h) => h.clone(),
        None => "git".to_owned(),
    }
}

/// The prompt handed to the askpass program when asking for one field of a
/// URL's credentials.
pub fn askpass_prompt(field: &str, url: &str) -> (r: String)
    ensures
        r@ == field@ + " for '"@ + url@ + "':"@,
{
    let mut out: String = field.to_owned();
    out.append(" for '");
    out.append(url);
    out.append("':");
    proof {
        assert(out@ =~= field@ + " for '"@ + url@ + "':"@);
    }
    out
}

/// The conventional location of the default SSH private key under the given
/// home directory.
pub fn default_ssh_key_path(home: &str) -> (r: String)
    ensures
        r@ == home@ + "/.ssh/id_rsa"@,
{
    let mut out: String = home.to_owned();
    out.append("/.ssh/id_rsa");
    proof {
        assert(out@ =~= home@ + "/.ssh/id_rsa"@);
    }
    out
}

/// Relies on directories' `UserDirs::home_dir`: the user's home directory,
/// dependent on the process environment; nothing is assumed of its value.
#[verifier::external_body]
pub(crate) fn user_home_dir() -> (r: Option<String>) {
    directories::UserDirs::new().map(|d| d.home_dir().to_string_lossy().into_owned())
}

/// The path of the default SSH private key for the current user, or `None`
/// when no home directory can be determined.
pub fn ssh_key_path() -> (r: Option<String>)
    ensures
        match r {
            Some(p) => exists|home: Seq<char>| p@ == home + "/.ssh/id_rsa"@,
            None => true,
        },
{
    match user_home_dir() {
        None => None,
        Some(home) => {
            let ghost home_view: Seq<char> = home@;
            let p = default_ssh_key_path(home.as_str());
            proof {
                assert(p@ == home_view + "/.ssh/id_rsa"@);
            }
            Some(p)
        },
    }
}

/// What one synchronization of an existing mirror does with the fetched
/// remote history
#[derive(Copy, Clone, Debug, PartialEq, Eq, Structural)]
pub enum MergeAction {
    /// The local history already contains the remote head: nothing to do
    AlreadyCurrent,

    /// The local head can fast-forward onto the remote head
    FastForward,

    /// The histories diverged; only fast-forward merges are supported
    Divergence,
}

/// Decides what to do with a merge analysis of the fetched remote commit:
/// up-to-date is a no-op, a possible fast-forward advances the local head,
/// and anything else is unsupported divergence.
pub fn merge_plan(up_to_date: bool, fast_forward: bool) -> (r: MergeAction)
    ensures
        r == (if up_to_date {
            MergeAction::AlreadyCurrent
        } else if fast_forward {
            MergeAction::FastForward
        } else {
            MergeAction::Divergence
        }),
{
    if up_to_date {
        MergeAction::AlreadyCurrent
    } else if fast_forward {
        MergeAction::FastForward
    } else {
        MergeAction::Divergence
    }
}

/// True when `a` is a prefix of `b`.
pub open spec fn seq_is_prefix(a: Seq<u64>, b: Seq<u64>) -> bool {
    a.len() <= b.len() && forall|i: int| 0 <= i < a.len() ==> a[i] == b[i]
}

/// Whether `a` is a prefix of `b`.
pub fn is_prefix(a: &Vec<u64>, b: &Vec<u64>) -> (r: bool)
    ensures
        r == seq_is_prefix(a@, b@),
{
    if a.len() > b.len() {
        return false;
    }
    let n = a.len();
    let mut i: usize = 0;
    while i < n
        invariant
            n == a@.len() <= b@.len(),
            0 <= i <= n,
            forall|j: int| 0 <= j < i ==> a@[j] == b@[j],
        decreases n - i,
    {
        if a[i] != b[i] {
            return false;
        }
        i = i + 1;
    }
    true
}

/// The state of one local mirror: whether a repository is present, and the
/// commit history of its main branch, oldest first. Commits are abstract
/// identifiers; a history is the chain of commits reachable from the head.
#[derive(Debug)]
pub struct MirrorState {
    /// Whether a repository is present at the mirror path
    pub present: bool,

    /// The commit history of the local main branch, oldest first
    pub history: Vec<u64>,
}

/// How one successful synchronization of a mirror ended
#[derive(Copy, Clone, Debug, PartialEq, Eq, Structural)]
pub enum SyncAction {
    /// No repository was present; the remote was cloned
    Cloned,

    /// The mirror already contained the remote head
    AlreadyCurrent,

    /// The local head fast-forwarded onto the remote head
    FastForwarded,
}

/// Why a synchronization failed
#[derive(Copy, Clone, Debug, PartialEq, Eq, Structural)]
pub enum SyncError {
    /// Local and remote histories diverged; only fast-forward is supported
    UnsupportedDivergence,
}

/// True when synchronizing a mirror in the given state against the given
/// remote history succeeds: the mirror is absent (clone), or one history is a
/// prefix of the other (no-op or fast-forward).
pub open spec fn sync_succeeds(present: bool, local: Seq<u64>, remote: Seq<u64>) -> bool {
    !present || seq_is_prefix(remote, local) || seq_is_prefix(local, remote)
}

/// The local history after synchronizing against the given remote history:
/// the remote history after a clone or fast-forward, and the unchanged local
/// history otherwise — also on failure, which mutates nothing.
pub open spec fn sync_next(present: bool, local: Seq<u64>, remote: Seq<u64>) -> Seq<u64> {
    if !present {
        remote
    } else if seq_is_prefix(remote, local) {
        local
    } else if seq_is_prefix(local, remote) {
        remote
    } else {
        local
    }
}

/// Synchronizes one mirror against a fetched remote history: clones when no
/// repository is present, does nothing when the remote head is already
/// contained, fast-forwards when possible, and fails — mutating nothing —
/// when the histories diverged.
pub fn ensure_synced(state: &mut MirrorState, remote: &Vec<u64>) -> (r: Result<
    SyncAction,
    SyncError,
>)
    ensures
        final(state).present,
        final(state).history@ == sync_next(
            old(state).present,
            old(state).history@,
            remote@,
        ),
        match r {
            Ok(a) => sync_succeeds(old(state).present, old(state).history@, remote@) && a == (
            if !old(state).present {
                SyncAction::Cloned
            } else if seq_is_prefix(remote@, old(state).history@) {
                SyncAction::AlreadyCurrent
            } else {
                SyncAction::FastForwarded
            }),
            Err(e) => !sync_succeeds(old(state).present, old(state).history@, remote@) && e
                == SyncError::UnsupportedDivergence && final(state).history
                == old(state).history,
        },
{
    if !state.present {
        state.history = remote.clone();
        state.present = true;
        Ok(SyncAction::Cloned)
    } else if is_prefix(remote, &state.history) {
        Ok(SyncAction::AlreadyCurrent)
    } else if is_prefix(&state.history, remote) {
        state.history = remote.clone();
        Ok(SyncAction::FastForwarded)
    } else {
        Err(SyncError::UnsupportedDivergence)
    }
}

/// Law: `ensure_synced` is idempotent — after a successful synchronization
/// against a remote, synchronizing again against the unchanged remote
/// succeeds, reports the mirror as already current, and moves nothing.
pub proof fn lemma_sync_idempotent(present: bool, local: Seq<u64>, remote: Seq<u64>)
    requires
        sync_succeeds(present, local, remote),
    ensures
        sync_succeeds(true, sync_next(present, local, remote), remote),
        seq_is_prefix(remote, sync_next(present, local, remote)),
        sync_next(true, sync_next(present, local, remote), remote) == sync_next(
            present,
            local,
            remote,
        ),
{
}

/// Law: fast-forward — when the local history is a strict prefix of the
/// remote's, synchronization succeeds and the local head moves to the remote
/// head.
pub proof fn lemma_sync_fast_forward(local: Seq<u64>, remote: Seq<u64>)
    requires
        seq_is_prefix(local, remote),
        local.len() < remote.len(),
    ensures
        sync_succeeds(true, local, remote),
        sync_next(true, local, remote) == remote,
{
    assert(!seq_is_prefix(remote, local));
}

/// Law: diverged histories — when neither history is a prefix of the other,
/// synchronization fails and the local history is unchanged.
pub proof fn lemma_sync_divergence(local: Seq<u64>, remote: Seq<u64>)
    requires
        !seq_is_prefix(local, remote),
        !seq_is_prefix(remote, local),
    ensures
        !sync_succeeds(true, local, remote),
        sync_next(true, local, remote) == local,
{
}

} // verus!
