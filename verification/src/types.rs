//! The data carried by the store: blob keys, source files, revision entries,
//! revision metadata, and the provenance records written by branching.

use vstd::prelude::*;
use vstd::string::StringExecFns;

use crate::digest::content_md5;
use crate::digest::md5_hex_of;
use crate::digest::random_md5;

verus! {

/// The user every seeded revision is attributed to by default.
pub fn admin_user_name() -> (r: String)
    ensures
        r@ == spec_admin_user(),
{
    let r = String::from_str("Admin");
    r
}

/// The name of the default revision author.
pub open spec fn spec_admin_user() -> Seq<char> {
    "Admin"@
}

/// Address of one blob in a package's content store: a path together with the
/// digest of the bytes stored under it.
#[derive(Debug)]
pub struct MockSourceFileKey {
    pub path: String,
    pub md5: String,
}

impl Clone for MockSourceFileKey {
    fn clone(&self) -> (r: Self)
        ensures
            r == *self,
    {
        MockSourceFileKey { path: self.path.clone(), md5: self.md5.clone() }
    }
}

impl MockSourceFileKey {
    /// Builds a key from borrowed parts.
    pub fn borrowed(path: &String, md5: &String) -> (r: Self)
        ensures
            r.path@ == path@,
            r.md5@ == md5@,
    {
        MockSourceFileKey { path: path.clone(), md5: md5.clone() }
    }

    /// The key already owns its parts; kept so callers written against the
    /// borrowing interface still read naturally.
    pub fn into_owned(self) -> (r: Self)
        ensures
            r == self,
    {
        self
    }
}

/// A named blob before it enters a content store.
#[derive(Debug)]
pub struct MockSourceFile {
    pub path: String,
    pub contents: Vec<u8>,
}

impl Clone for MockSourceFile {
    fn clone(&self) -> (r: Self)
        ensures
            r.path == self.path,
            r.contents@ == self.contents@,
    {
        MockSourceFile { path: self.path.clone(), contents: clone_bytes(&self.contents) }
    }
}

impl MockSourceFile {
    /// The digest of this file's bytes, which addresses it in a store.
    pub fn md5(&self) -> (r: String)
        ensures
            r@ == md5_hex_of(self.contents@),
            r@.len() == 32,
    {
        content_md5(self.contents.as_slice())
    }

    /// Splits the file into the key it is stored under and its bytes.
    pub fn into_key_and_contents(self) -> (r: (MockSourceFileKey, Vec<u8>))
        ensures
            r.0.path@ == self.path@,
            r.0.md5@ == md5_hex_of(self.contents@),
            r.1@ == self.contents@,
    {
        let md5 = self.md5();
        (MockSourceFileKey { md5, path: self.path }, self.contents)
    }
}

/// One named reference into the owning package's content store.
#[derive(Debug)]
pub struct MockEntry {
    pub md5: String,
    pub mtime: u64,
}

impl Clone for MockEntry {
    fn clone(&self) -> (r: Self)
        ensures
            r == *self,
    {
        MockEntry { md5: self.md5.clone(), mtime: self.mtime }
    }
}

impl MockEntry {
    /// An entry pointing at the blob a key addresses, stamped with a
    /// modification time in seconds since the epoch.
    pub fn from_key(key: &MockSourceFileKey, mtime: u64) -> (e: MockEntry)
        ensures
            e.md5@ == key.md5@,
            e.mtime == mtime,
    {
        MockEntry { md5: key.md5.clone(), mtime }
    }
}

/// An entry under the path that names it, as held by a revision.
#[derive(Debug)]
pub struct MockRevisionEntry {
    pub path: String,
    pub entry: MockEntry,
}

impl Clone for MockRevisionEntry {
    fn clone(&self) -> (r: Self)
        ensures
            r == *self,
    {
        MockRevisionEntry { path: self.path.clone(), entry: self.entry.clone() }
    }
}

/// How the link of a branched package was resolved: either the expanded
/// source tree is available under a digest of its own, or expansion failed.
#[derive(Debug)]
pub enum MockLinkResolution {
    Available { xsrcmd5: String },
    Error { error: String },
}

impl Clone for MockLinkResolution {
    fn clone(&self) -> (r: Self)
        ensures
            r == *self,
    {
        match self {
            MockLinkResolution::Available { xsrcmd5 } => MockLinkResolution::Available {
                xsrcmd5: xsrcmd5.clone(),
            },
            MockLinkResolution::Error { error } => MockLinkResolution::Error {
                error: error.clone(),
            },
        }
    }
}

/// Provenance record: this package was branched from that package, at the
/// origin revision whose digest is `baserev`.
#[derive(Debug)]
pub struct MockLinkInfo {
    pub project: String,
    pub package: String,
    pub baserev: String,
    pub srcmd5: String,
    pub lsrcmd5: String,
    pub link_resolution: MockLinkResolution,
    pub missingok: bool,
}

impl Clone for MockLinkInfo {
    fn clone(&self) -> (r: Self)
        ensures
            r == *self,
    {
        MockLinkInfo {
            project: self.project.clone(),
            package: self.package.clone(),
            baserev: self.baserev.clone(),
            srcmd5: self.srcmd5.clone(),
            lsrcmd5: self.lsrcmd5.clone(),
            link_resolution: self.link_resolution.clone(),
            missingok: self.missingok,
        }
    }
}

/// The caller-chosen metadata of one revision.
#[derive(Debug)]
pub struct MockRevisionOptions {
    pub srcmd5: String,
    pub version: Option<String>,
    pub time: u64,
    pub user: String,
    pub comment: Option<String>,
}

impl Clone for MockRevisionOptions {
    fn clone(&self) -> (r: Self)
        ensures
            r == *self,
    {
        MockRevisionOptions {
            srcmd5: self.srcmd5.clone(),
            version: clone_opt_string(&self.version),
            time: self.time,
            user: self.user.clone(),
            comment: clone_opt_string(&self.comment),
        }
    }
}

impl Default for MockRevisionOptions {
    /// A fresh random revision digest attributed to the default user at the
    /// epoch; callers that care about times set their own.
    fn default() -> (r: Self)
        ensures
            r.srcmd5@.len() == 32,
            r.version is None,
            r.time == 0,
            r.user@ == spec_admin_user(),
            r.comment is None,
    {
        MockRevisionOptions {
            srcmd5: random_md5(),
            version: None,
            time: 0,
            user: admin_user_name(),
            comment: None,
        }
    }
}

/// One element of a package's append-only history.
#[derive(Debug)]
pub struct MockRevision {
    pub vrev: Option<u64>,
    pub options: MockRevisionOptions,
    pub linkinfo: Vec<MockLinkInfo>,
    pub entries: Vec<MockRevisionEntry>,
}

impl Clone for MockRevision {
    fn clone(&self) -> (r: Self)
        ensures
            r.vrev == self.vrev,
            r.options == self.options,
            r.linkinfo@ == self.linkinfo@,
            r.entries@ == self.entries@,
    {
        MockRevision {
            vrev: self.vrev,
            options: self.options.clone(),
            linkinfo: clone_linkinfo_vec(&self.linkinfo),
            entries: clone_entry_vec(&self.entries),
        }
    }
}

/// Clones a byte vector, element for element.
pub fn clone_bytes(v: &Vec<u8>) -> (r: Vec<u8>)
    ensures
        r@ == v@,
{
    let mut r: Vec<u8> = Vec::new();
    let mut i: usize = 0;
    while i < v.len()
        invariant
            i <= v.len(),
            r@ =~= v@.take(i as int),
        decreases v.len() - i,
    {
        r.push(v[i]);
        i = i + 1;
    }
    proof {
        assert(r@ =~= v@);
    }
    r
}

/// Clones an optional string, preserving its characters.
pub fn clone_opt_string(v: &Option<String>) -> (r: Option<String>)
    ensures
        r == *v,
{
    match v {
        Some(s) => Some(s.clone()),
        None => None,
    }
}

/// Compares two optional strings by their characters.
pub fn opt_string_eq(a: &Option<String>, b: &Option<String>) -> (r: bool)
    ensures
        r == spec_opt_string_eq(*a, *b),
{
    match (a, b) {
        (Some(x), Some(y)) => *x == *y,
        (None, None) => true,
        _ => false,
    }
}

/// Two optional strings are the same label when both are absent or their
/// characters agree.
pub open spec fn spec_opt_string_eq(a: Option<String>, b: Option<String>) -> bool {
    match (a, b) {
        (Some(x), Some(y)) => x@ == y@,
        (None, None) => true,
        _ => false,
    }
}

/// One `disable` stanza of a package's metadata: the build is switched off
/// for the named repository and architecture, or for all of them where a
/// part is absent.
#[derive(Debug)]
pub struct MockPackageDisabledBuild {
    pub repository: Option<String>,
    pub arch: Option<String>,
}

impl Clone for MockPackageDisabledBuild {
    fn clone(&self) -> (r: Self)
        ensures
            r == *self,
    {
        MockPackageDisabledBuild {
            repository: clone_opt_string(&self.repository),
            arch: clone_opt_string(&self.arch),
        }
    }
}

impl Default for MockPackageDisabledBuild {
    fn default() -> (r: Self)
        ensures
            r.repository is None,
            r.arch is None,
    {
        MockPackageDisabledBuild { repository: None, arch: None }
    }
}

/// What a freshly created package is given: the digest of its first metadata
/// revision, its creation time, its creator, and its disabled builds.
#[derive(Debug)]
pub struct MockPackageOptions {
    pub meta_srcmd5: String,
    pub time: u64,
    pub user: String,
    pub disabled: Vec<MockPackageDisabledBuild>,
}

impl Default for MockPackageOptions {
    /// A fresh random metadata digest for the default user at the epoch.
    fn default() -> (r: Self)
        ensures
            r.meta_srcmd5@.len() == 32,
            r.time == 0,
            r.user@ == spec_admin_user(),
            r.disabled@.len() == 0,
    {
        MockPackageOptions {
            meta_srcmd5: random_md5(),
            time: 0,
            user: admin_user_name(),
            disabled: Vec::new(),
        }
    }
}

/// What a branch operation writes into the target's first revision: its own
/// digest, the expanded-source digest, and the usual attribution.
#[derive(Debug)]
pub struct MockBranchOptions {
    pub srcmd5: String,
    pub xsrcmd5: String,
    pub user: String,
    pub time: u64,
    pub comment: Option<String>,
    pub missingok: bool,
}

impl Default for MockBranchOptions {
    /// Fresh random digests for the default user at the epoch, without
    /// `missingok`.
    fn default() -> (r: Self)
        ensures
            r.srcmd5@.len() == 32,
            r.xsrcmd5@.len() == 32,
            r.user@ == spec_admin_user(),
            r.time == 0,
            r.comment is None,
            !r.missingok,
    {
        MockBranchOptions {
            srcmd5: random_md5(),
            xsrcmd5: random_md5(),
            user: admin_user_name(),
            time: 0,
            comment: None,
            missingok: false,
        }
    }
}

/// Clones a list of disabled-build stanzas, element for element.
pub fn clone_disabled_vec(v: &Vec<MockPackageDisabledBuild>) -> (r: Vec<MockPackageDisabledBuild>)
    ensures
        r@ == v@,
{
    let mut r: Vec<MockPackageDisabledBuild> = Vec::new();
    let mut i: usize = 0;
    while i < v.len()
        invariant
            i <= v.len(),
            r@ =~= v@.take(i as int),
        decreases v.len() - i,
    {
        r.push(v[i].clone());
        i = i + 1;
    }
    proof {
        assert(r@ =~= v@);
    }
    r
}

/// Clones a list of provenance records, element for element.
pub fn clone_linkinfo_vec(v: &Vec<MockLinkInfo>) -> (r: Vec<MockLinkInfo>)
    ensures
        r@ == v@,
{
    let mut r: Vec<MockLinkInfo> = Vec::new();
    let mut i: usize = 0;
    while i < v.len()
        invariant
            i <= v.len(),
            r@ =~= v@.take(i as int),
        decreases v.len() - i,
    {
        r.push(v[i].clone());
        i = i + 1;
    }
    proof {
        assert(r@ =~= v@);
    }
    r
}

/// Clones a list of revision entries, element for element.
pub fn clone_entry_vec(v: &Vec<MockRevisionEntry>) -> (r: Vec<MockRevisionEntry>)
    ensures
        r@ == v@,
{
    let mut r: Vec<MockRevisionEntry> = Vec::new();
    let mut i: usize = 0;
    while i < v.len()
        invariant
            i <= v.len(),
            r@ =~= v@.take(i as int),
        decreases v.len() - i,
    {
        r.push(v[i].clone());
        i = i + 1;
    }
    proof {
        assert(r@ =~= v@);
    }
    r
}

} // verus!
