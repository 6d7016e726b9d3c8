//! The source a password store is taken from, and the deterministic mapping
//! from a remote URL to the local mirror directory

use crate::encoding::blake2b12_of;
use crate::encoding::blake2b_digest_12;
use crate::encoding::hex_encode;
use crate::encoding::hex_of;
use crate::encoding::lemma_hex_of_injective;
use vstd::prelude::*;
use vstd::string::StringExecFns;
use vstd::utf8::encode_utf8;

verus! {

/// A reference to the source from which pass secret data is retrieved
#[derive(Debug)]
pub enum PassSource {
    /// Use the existing store located at the ambient per-user store location
    Local,

    /// Use a git repository which contains a password store at its root
    Git(GitPassSource),
}

impl Default for PassSource {
    /// Without an explicit source the ambient local store is used.
    fn default() -> (r: Self)
        ensures
            r is Local,
    {
        PassSource::Local
    }
}

/// A git repository which contains a password store at its root
#[derive(Debug)]
pub struct GitPassSource {
    /// Git clone url
    pub url: String,
}

/// The name of the local mirror directory for a remote URL: a stable literal
/// prefix followed by the lower-case hex encoding of a 12-byte digest of the
/// URL bytes. A pure function of the URL.
pub open spec fn mirror_dir_name(url: Seq<char>) -> Seq<char> {
    "password-store-"@ + hex_of(blake2b12_of(encode_utf8(url)))
}

/// Law: the mirror directory name is deterministic — equal URLs always map to
/// the same name, across calls and processes.
pub proof fn lemma_mirror_dir_name_deterministic(u1: Seq<char>, u2: Seq<char>)
    requires
        u1 == u2,
    ensures
        mirror_dir_name(u1) == mirror_dir_name(u2),
{
}

/// Law: URLs whose digests differ map to distinct mirror directory names, so
/// two remotes share a directory only on a digest collision.
pub proof fn lemma_distinct_digests_distinct_names(u1: Seq<char>, u2: Seq<char>)
    requires
        blake2b12_of(encode_utf8(u1)) != blake2b12_of(encode_utf8(u2)),
    ensures
        mirror_dir_name(u1) != mirror_dir_name(u2),
{
    let p = "password-store-"@;
    let d1 = blake2b12_of(encode_utf8(u1));
    let d2 = blake2b12_of(encode_utf8(u2));
    let h1 = hex_of(d1);
    let h2 = hex_of(d2);
    if mirror_dir_name(u1) == mirror_dir_name(u2) {
        assert((p + h1).len() == p.len() + h1.len());
        assert((p + h2).len() == p.len() + h2.len());
        assert(h1.len() == h2.len());
        assert(h1 =~= h2) by {
            assert forall|i: int| 0 <= i < h1.len() implies h1[i] == h2[i] by {
                assert((p + h1)[p.len() + i] == h1[i]);
                assert((p + h2)[p.len() + i] == h2[i]);
            }
        }
        assert(d1.len() == d2.len());
        lemma_hex_of_injective(d1, d2);
        assert(d1 == d2);
    }
}

impl GitPassSource {
    /// The name of the local mirror directory that is unique to this remote:
    /// `password-store-` followed by the hex digest of the URL.
    pub fn unique_dir_name(&self) -> (r: String)
        ensures
            r@ == mirror_dir_name(self.url@),
    {
        let digest = blake2b_digest_12(self.url.as_str().as_bytes());
        let hex = hex_encode(&digest);
        let mut out: String = "password-store-".to_owned();
        out.append(hex.as_str());
        proof {
            assert(out@ =~= mirror_dir_name(self.url@));
        }
        out
    }

    /// The full path this repository is mirrored to: the unique directory name
    /// joined under the per-user application data directory. `None` when no
    /// such directory can be determined for the current user.
    pub fn unique_path(&self) -> (r: Option<String>)
        ensures
            match r {
                Some(p) => exists|base: Seq<char>|
                    p@ == base + "/"@ + mirror_dir_name(self.url@),
                None => true,
            },
    {
        match project_data_dir() {
            None => None,
            Some(base) => {
                let ghost base_view: Seq<char> = base@;
                let name = self.unique_dir_name();
                let mut p = base;
                p.append("/");
                p.append(name.as_str());
                proof {
                    assert(p@ == base_view + "/"@ + mirror_dir_name(self.url@));
                }
                Some(p)
            },
        }
    }
}

/// Relies on directories' `ProjectDirs::from(..).data_local_dir()`: the
/// per-user application data directory for this tool. The result depends on
/// the process environment, so nothing is assumed of its value.
#[verifier::external_body]
pub(crate) fn project_data_dir() -> (r: Option<String>) {
    directories::ProjectDirs::from("de", "ftsell", "kustomize-pass")
        .map(|d| d.data_local_dir().to_string_lossy().into_owned())
}

} // verus!
