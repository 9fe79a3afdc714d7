//! Build-side state attached to repository cells: statuses, binaries, logs
//! and build history. The store only records these values; the build
//! endpoints that serve them live outside the verified core.

use vstd::prelude::*;
use vstd::string::StringExecFns;

use crate::codes::MockPackageCode;
use crate::digest::random_md5;
use crate::types::clone_bytes;

verus! {

/// Build status of one package in one repository cell.
#[derive(Debug)]
pub struct MockBuildStatus {
    pub code: MockPackageCode,
    pub dirty: bool,
}

impl Clone for MockBuildStatus {
    fn clone(&self) -> (r: Self)
        ensures
            r == *self,
    {
        MockBuildStatus { code: self.code, dirty: self.dirty }
    }
}

impl Default for MockBuildStatus {
    fn default() -> (r: Self)
        ensures
            r.code == MockPackageCode::Unknown,
            !r.dirty,
    {
        MockBuildStatus { code: MockPackageCode::Unknown, dirty: false }
    }
}

impl MockBuildStatus {
    /// A clean status with the given code.
    pub fn new(code: MockPackageCode) -> (r: Self)
        ensures
            r.code == code,
            !r.dirty,
    {
        MockBuildStatus { code, dirty: false }
    }
}

/// One built artifact, by name, with its bytes and modification time.
#[derive(Debug)]
pub struct MockBinary {
    pub contents: Vec<u8>,
    pub mtime: u64,
}

impl Clone for MockBinary {
    fn clone(&self) -> (r: Self)
        ensures
            r.contents@ == self.contents@,
            r.mtime == self.mtime,
    {
        MockBinary { contents: clone_bytes(&self.contents), mtime: self.mtime }
    }
}

/// A build log, optionally served in chunks of a fixed size.
#[derive(Debug)]
pub struct MockBuildLog {
    pub contents: String,
    pub mtime: u64,
    pub chunk_size: Option<usize>,
}

impl Clone for MockBuildLog {
    fn clone(&self) -> (r: Self)
        ensures
            r == *self,
    {
        MockBuildLog {
            contents: self.contents.clone(),
            mtime: self.mtime,
            chunk_size: self.chunk_size,
        }
    }
}

impl MockBuildLog {
    /// A log holding the given text, stamped at the epoch and served whole;
    /// callers that care set their own time and chunking.
    pub fn new(contents: String) -> (r: MockBuildLog)
        ensures
            r.contents@ == contents@,
            r.mtime == 0,
            r.chunk_size is None,
    {
        MockBuildLog { contents, mtime: 0, chunk_size: None }
    }
}

/// One line of a package's build history.
#[derive(Debug)]
pub struct MockBuildHistoryEntry {
    pub rev: String,
    pub srcmd5: String,
    pub versrel: String,
    pub bcnt: u32,
    pub time: u64,
    pub duration: u64,
}

impl Clone for MockBuildHistoryEntry {
    fn clone(&self) -> (r: Self)
        ensures
            r == *self,
    {
        MockBuildHistoryEntry {
            rev: self.rev.clone(),
            srcmd5: self.srcmd5.clone(),
            versrel: self.versrel.clone(),
            bcnt: self.bcnt,
            time: self.time,
            duration: self.duration,
        }
    }
}

impl Default for MockBuildHistoryEntry {
    /// A first build of version-release "0" with a fresh digest, at the
    /// epoch, taking no time.
    fn default() -> (r: Self)
        ensures
            r.rev@ == "1"@,
            r.srcmd5@.len() == 32,
            r.versrel@ == "0"@,
            r.bcnt == 1,
            r.time == 0,
            r.duration == 0,
    {
        MockBuildHistoryEntry {
            rev: String::from_str("1"),
            srcmd5: random_md5(),
            versrel: String::from_str("0"),
            bcnt: 1,
            time: 0,
            duration: 0,
        }
    }
}

/// One package's build results inside a repository cell: its status, its
/// binaries by name, the latest logs, and its history.
#[derive(Debug)]
pub struct MockRepositoryPackage {
    pub name: String,
    pub status: MockBuildStatus,
    pub binaries: Vec<MockNamedBinary>,
    pub latest_log: Option<MockBuildLog>,
    pub latest_successful_log: Option<MockBuildLog>,
    pub history: Vec<MockBuildHistoryEntry>,
}

/// A binary under the file name it is served as.
#[derive(Debug)]
pub struct MockNamedBinary {
    pub name: String,
    pub binary: MockBinary,
}

impl Clone for MockNamedBinary {
    fn clone(&self) -> (r: Self)
        ensures
            r.name@ == self.name@,
            r.binary.contents@ == self.binary.contents@,
            r.binary.mtime == self.binary.mtime,
    {
        MockNamedBinary { name: self.name.clone(), binary: self.binary.clone() }
    }
}

impl Clone for MockRepositoryPackage {
    fn clone(&self) -> (r: Self)
        ensures
            r.name@ == self.name@,
            r.status == self.status,
            r.binaries@.len() == self.binaries@.len(),
            r.latest_log is Some <==> self.latest_log is Some,
            r.latest_successful_log is Some <==> self.latest_successful_log is Some,
            r.history@.len() == self.history@.len(),
    {
        MockRepositoryPackage {
            name: self.name.clone(),
            status: self.status.clone(),
            binaries: clone_named_binaries(&self.binaries),
            latest_log: clone_opt_log(&self.latest_log),
            latest_successful_log: clone_opt_log(&self.latest_successful_log),
            history: clone_history(&self.history),
        }
    }
}

/// An empty build-results cell for a package that was never built.
impl MockRepositoryPackage {
    pub fn empty(name: String) -> (r: Self)
        ensures
            r.name@ == name@,
            r.status.code == MockPackageCode::Unknown,
            !r.status.dirty,
            r.binaries@.len() == 0,
            r.latest_log is None,
            r.latest_successful_log is None,
            r.history@.len() == 0,
    {
        MockRepositoryPackage {
            name,
            status: MockBuildStatus::default(),
            binaries: Vec::new(),
            latest_log: None,
            latest_successful_log: None,
            history: Vec::new(),
        }
    }
}

/// Clones a list of named binaries, element for element.
pub fn clone_named_binaries(v: &Vec<MockNamedBinary>) -> (r: Vec<MockNamedBinary>)
    ensures
        r@.len() == v@.len(),
{
    let mut r: Vec<MockNamedBinary> = Vec::new();
    let mut i: usize = 0;
    while i < v.len()
        invariant
            i <= v.len(),
            r@.len() == i,
        decreases v.len() - i,
    {
        r.push(v[i].clone());
        i = i + 1;
    }
    r
}

/// Clones an optional build log.
pub fn clone_opt_log(v: &Option<MockBuildLog>) -> (r: Option<MockBuildLog>)
    ensures
        r is Some <==> *v is Some,
{
    match v {
        Some(l) => Some(l.clone()),
        None => None,
    }
}

/// Clones a build history, element for element.
pub fn clone_history(v: &Vec<MockBuildHistoryEntry>) -> (r: Vec<MockBuildHistoryEntry>)
    ensures
        r@.len() == v@.len(),
{
    let mut r: Vec<MockBuildHistoryEntry> = Vec::new();
    let mut i: usize = 0;
    while i < v.len()
        invariant
            i <= v.len(),
            r@.len() == i,
        decreases v.len() - i,
    {
        r.push(v[i].clone());
        i = i + 1;
    }
    r
}

} // verus!
