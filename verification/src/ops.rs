//! The protocol operations the source endpoints serve: revision listings,
//! histories, file fetches, and the parsers for their query parameters.
//! Each returns plain values; the HTTP layer only encodes them.

use vstd::prelude::*;
use vstd::string::StrSliceExecFns;
use vstd::string::StringExecFns;

use crate::codes::spec_parse_block_mode;
use crate::codes::spec_parse_rebuild_mode;
use crate::codes::MockBlockMode;
use crate::codes::MockRebuildMode;
use crate::digest::spec_zero_srcmd5;
use crate::digest::zero_rev_srcmd5;
use crate::errors::MockApiError;
use crate::metaxml::spec_meta_bytes;
use crate::metaxml::spec_meta_path;
use crate::package::MockPackage;
use crate::project::MockProject;
use crate::registry::ObsMock;
use crate::store::entries_at;
use crate::store::entries_has;
use crate::store::entries_find;
use crate::store::lemma_entries_index;
use crate::store::store_contents;
use crate::store::store_has;
use crate::builds::MockBuildStatus;
use crate::digest::content_md5;
use crate::digest::md5_hex_of;
use crate::package::entries_in_store;
use crate::package::spec_branched_package;
use crate::project::clone_repos;
use crate::project::spec_repos_shape_eq;
use crate::project::MockRepositorySlot;
use crate::types::MockBranchOptions;
use crate::types::MockSourceFileKey;
use crate::package::spec_revision_appended;
use crate::project::lemma_pkgs_update_frame;
use crate::project::pkgs_index;
use crate::registry::get_package;
use crate::registry::lemma_projs_update_frame;
use crate::registry::projs_index;
use crate::store::MockStoredFile;
use crate::types::clone_bytes;
use crate::types::clone_linkinfo_vec;
use crate::types::clone_opt_string;
use crate::types::MockEntry;
use crate::types::MockLinkInfo;
use crate::types::MockRevisionEntry;
use crate::types::MockRevisionOptions;

verus! {

// ---------------------------------------------------------------------------
// Query parameter parsing.
// ---------------------------------------------------------------------------

/// Whether a character is a decimal digit.
pub open spec fn spec_is_digit(c: char) -> bool {
    48 <= c as u32 && c as u32 <= 57
}

/// The value of a decimal digit.
pub open spec fn spec_digit_val(c: char) -> int {
    c as u32 - 48
}

/// Whether a string is one or more decimal digits.
pub open spec fn spec_is_digits(s: Seq<char>) -> bool {
    s.len() > 0 && forall|i: int| 0 <= i < s.len() ==> spec_is_digit(#[trigger] s[i])
}

/// The number a digit string denotes.
pub open spec fn spec_digits_value(s: Seq<char>) -> int
    decreases s.len(),
{
    if s.len() == 0 {
        0
    } else {
        spec_digits_value(s.drop_last()) * 10 + spec_digit_val(s.last())
    }
}

/// A digit string denotes a number, never a negative value.
pub proof fn lemma_digits_value_nonneg(s: Seq<char>)
    requires
        forall|i: int| 0 <= i < s.len() ==> spec_is_digit(#[trigger] s[i]),
    ensures
        0 <= spec_digits_value(s),
    decreases s.len(),
{
    if s.len() > 0 {
        lemma_digits_value_nonneg(s.drop_last());
        assert(spec_is_digit(s.last()));
    }
}

/// A digit string's value only grows as digits are appended.
pub proof fn lemma_digits_value_mono(s: Seq<char>, k: int)
    requires
        forall|i: int| 0 <= i < s.len() ==> spec_is_digit(#[trigger] s[i]),
        0 <= k <= s.len(),
    ensures
        0 <= spec_digits_value(s.take(k)),
        spec_digits_value(s.take(k)) <= spec_digits_value(s),
    decreases s.len() - k,
{
    assert forall|i: int| 0 <= i < s.take(k).len() implies spec_is_digit(
        #[trigger] s.take(k)[i],
    ) by {
        assert(s.take(k)[i] == s[i]);
    }
    lemma_digits_value_nonneg(s.take(k));
    if k == s.len() {
        assert(s.take(k) =~= s);
    } else {
        lemma_digits_value_mono(s, k + 1);
        let t = s.take(k + 1);
        assert(t.drop_last() =~= s.take(k));
        assert(t.last() == s[k]);
        assert(spec_is_digit(s[k]));
        assert(spec_digits_value(t) == spec_digits_value(s.take(k)) * 10 + spec_digit_val(s[k]));
    }
}

/// Reads a one-based revision index from its decimal digits. Anything that
/// is not a digit string, or that does not fit, is refused.
pub fn parse_rev(s: &String) -> (r: Option<usize>)
    ensures
        match r {
            Some(n) => spec_is_digits(s@) && n as int == spec_digits_value(s@),
            None => !spec_is_digits(s@) || spec_digits_value(s@) > usize::MAX,
        },
{
    let str_ref = s.as_str();
    let n_chars = str_ref.unicode_len();
    if n_chars == 0 {
        return None;
    }
    let mut acc: usize = 0;
    let mut i: usize = 0;
    while i < n_chars
        invariant
            i <= n_chars,
            n_chars == s@.len(),
            str_ref@ == s@,
            forall|j: int| 0 <= j < i ==> spec_is_digit(#[trigger] s@[j]),
            acc as int == spec_digits_value(s@.take(i as int)),
        decreases n_chars - i,
    {
        let c = str_ref.get_char(i);
        let cv = c as u32;
        if cv < 48 || cv > 57 {
            return None;
        }
        let d: usize = (cv - 48) as usize;
        if acc > usize::MAX / 10 || (acc == usize::MAX / 10 && d > usize::MAX % 10) {
            proof {
                if spec_is_digits(s@) {
                    lemma_digits_value_mono(s@, i + 1);
                    let t = s@.take(i + 1);
                    assert(t.drop_last() =~= s@.take(i as int));
                    assert(t.last() == s@[i as int]);
                    assert(spec_digits_value(t) == acc * 10 + d);
                    assert(usize::MAX == (usize::MAX / 10) * 10 + usize::MAX % 10);
                }
            }
            return None;
        }
        proof {
            assert(acc * 10 + d <= usize::MAX) by {
                assert(acc <= usize::MAX / 10);
                assert(usize::MAX == (usize::MAX / 10) * 10 + usize::MAX % 10);
            }
            let t = s@.take(i + 1);
            assert(t.drop_last() =~= s@.take(i as int));
            assert(t.last() == s@[i as int]);
        }
        acc = acc * 10 + d;
        i = i + 1;
    }
    proof {
        assert(s@.take(n_chars as int) =~= s@);
    }
    Some(acc)
}

/// What the `meta` query flag selects: the metadata stream, the source
/// stream, or nothing a listing accepts.
pub open spec fn spec_meta_flag(v: Option<String>) -> Option<bool> {
    match v {
        None => Some(false),
        Some(s) => if s@ == "1"@ {
            Some(true)
        } else if s@ == "0"@ {
            Some(false)
        } else {
            None
        },
    }
}

/// Reads the `meta` query flag.
pub fn parse_meta_flag(v: &Option<String>) -> (r: Result<bool, MockApiError>)
    ensures
        match r {
            Ok(b) => spec_meta_flag(*v) == Some(b),
            Err(e) => spec_meta_flag(*v) is None && e is NotBoolean,
        },
{
    match v {
        None => Ok(false),
        Some(s) => {
            if *s == String::from_str("1") {
                Ok(true)
            } else if *s == String::from_str("0") {
                Ok(false)
            } else {
                Err(MockApiError::NotBoolean)
            }
        },
    }
}

/// Reads the `add_repositories_rebuild` parameter; absent is allowed, a name
/// that is no mode is refused.
pub fn parse_rebuild_param(v: &Option<String>) -> (r: Result<
    Option<MockRebuildMode>,
    MockApiError,
>)
    ensures
        match r {
            Ok(m) => match *v {
                None => m is None,
                Some(s) => m is Some && spec_parse_rebuild_mode(s@) == m,
            },
            Err(e) => e is InvalidArgument && (*v matches Some(s) && spec_parse_rebuild_mode(s@)
                is None),
        },
{
    match v {
        None => Ok(None),
        Some(s) => match MockRebuildMode::from_name(s) {
            Some(m) => Ok(Some(m)),
            None => Err(MockApiError::InvalidArgument),
        },
    }
}

/// Reads the `add_repositories_block` parameter; absent is allowed, a name
/// that is no mode is refused.
pub fn parse_block_param(v: &Option<String>) -> (r: Result<Option<MockBlockMode>, MockApiError>)
    ensures
        match r {
            Ok(m) => match *v {
                None => m is None,
                Some(s) => m is Some && spec_parse_block_mode(s@) == m,
            },
            Err(e) => e is InvalidArgument && (*v matches Some(s) && spec_parse_block_mode(s@)
                is None),
        },
{
    match v {
        None => Ok(None),
        Some(s) => match MockBlockMode::from_name(s) {
            Some(m) => Ok(Some(m)),
            None => Err(MockApiError::InvalidArgument),
        },
    }
}

// ---------------------------------------------------------------------------
// Listings.
// ---------------------------------------------------------------------------

/// One entry of a revision listing: name, digest, size and time of the blob.
#[derive(Debug)]
pub struct SourceListingEntry {
    pub name: String,
    pub md5: String,
    pub size: u64,
    pub mtime: u64,
}

/// A revision listing: the directory shape served for one revision of one
/// package. A `rev` of zero is the zero revision, reported before any commit.
#[derive(Debug)]
pub struct SourceListing {
    pub name: String,
    pub rev: u64,
    pub vrev: Option<u64>,
    pub srcmd5: String,
    pub entries: Vec<SourceListingEntry>,
    pub linkinfo: Vec<MockLinkInfo>,
}

/// What a listing of the given one-based revision of a package must hold:
/// the revision's digest, counter and provenance, and one entry per
/// revision entry, sized by the stored blob.
pub open spec fn spec_listing_matches(
    l: SourceListing,
    package_name: Seq<char>,
    p: MockPackage,
    meta: bool,
    rev_id: int,
) -> bool {
    let revs = if meta {
        p.meta_revisions@
    } else {
        p.revisions@
    };
    let r = revs[rev_id - 1];
    &&& l.name@ == package_name
    &&& l.rev == rev_id
    &&& l.vrev == r.vrev
    &&& l.srcmd5@ == r.options.srcmd5@
    &&& l.linkinfo@ == r.linkinfo@
    &&& l.entries@.len() == r.entries@.len()
    &&& forall|k: int|
        0 <= k < l.entries@.len() ==> {
            let e = #[trigger] l.entries@[k];
            let re = r.entries@[k];
            &&& e.name@ == re.path@
            &&& e.md5@ == re.entry.md5@
            &&& e.mtime == re.entry.mtime
            &&& e.size == store_contents(p.files@, re.path@, re.entry.md5@).len()
        }
}

/// What the zero revision reports: index zero, no counter, the digest of
/// the empty input, nothing else.
pub open spec fn spec_zero_listing(l: SourceListing, package_name: Seq<char>) -> bool {
    &&& l.name@ == package_name
    &&& l.rev == 0
    &&& l.vrev is None
    &&& l.srcmd5@ == spec_zero_srcmd5()
    &&& l.entries@.len() == 0
    &&& l.linkinfo@.len() == 0
}

/// Builds the listing of one revision of a package.
pub fn build_listing(package_name: &String, p: &MockPackage, meta: bool, rev_id: usize) -> (l:
    SourceListing)
    requires
        p.wf(),
        1 <= rev_id,
        meta ==> rev_id <= p.meta_revisions@.len(),
        !meta ==> rev_id <= p.revisions@.len(),
    ensures
        spec_listing_matches(l, package_name@, *p, meta, rev_id as int),
{
    let rev = if meta {
        &p.meta_revisions[rev_id - 1]
    } else {
        &p.revisions[rev_id - 1]
    };
    let mut entries: Vec<SourceListingEntry> = Vec::new();
    let mut k: usize = 0;
    while k < rev.entries.len()
        invariant
            p.wf(),
            k <= rev.entries@.len(),
            entries@.len() == k,
            entries_in_store(rev.entries@, p.files@),
            forall|j: int|
                0 <= j < k ==> {
                    let e = #[trigger] entries@[j];
                    let re = rev.entries@[j];
                    &&& e.name@ == re.path@
                    &&& e.md5@ == re.entry.md5@
                    &&& e.mtime == re.entry.mtime
                    &&& e.size == store_contents(p.files@, re.path@, re.entry.md5@).len()
                },
        decreases rev.entries@.len() - k,
    {
        let re = &rev.entries[k];
        let contents = match p.file_contents(&re.path, &re.entry.md5) {
            Some(c) => c,
            None => {
                proof {
                    assert(false);
                }
                unreached()
            },
        };
        let size = contents.len() as u64;
        entries.push(
            SourceListingEntry {
                name: re.path.clone(),
                md5: re.entry.md5.clone(),
                size,
                mtime: re.entry.mtime,
            },
        );
        k = k + 1;
    }
    let vrev = rev.vrev;
    SourceListing {
        name: package_name.clone(),
        rev: rev_id as u64,
        vrev,
        srcmd5: rev.options.srcmd5.clone(),
        entries,
        linkinfo: clone_linkinfo_vec(&rev.linkinfo),
    }
}

/// The zero-revision listing of a package.
pub fn build_zero_listing(package_name: &String) -> (l: SourceListing)
    ensures
        spec_zero_listing(l, package_name@),
{
    SourceListing {
        name: package_name.clone(),
        rev: 0,
        vrev: None,
        srcmd5: zero_rev_srcmd5(),
        entries: Vec::new(),
        linkinfo: Vec::new(),
    }
}

// ---------------------------------------------------------------------------
// History.
// ---------------------------------------------------------------------------

/// One line of a package's revision history.
#[derive(Debug)]
pub struct MockHistoryEntry {
    pub rev: u64,
    pub vrev: u64,
    pub srcmd5: String,
    pub version: Option<String>,
    pub time: u64,
    pub user: String,
    pub comment: Option<String>,
}

/// What a history line must hold of the revision it reports.
pub open spec fn spec_history_matches(h: MockHistoryEntry, p: MockPackage, i: int) -> bool {
    let r = p.revisions@[i];
    &&& h.rev == i + 1
    &&& Some(h.vrev) == r.vrev
    &&& h.srcmd5@ == r.options.srcmd5@
    &&& h.version == r.options.version
    &&& h.time == r.options.time
    &&& h.user@ == r.options.user@
    &&& h.comment == r.options.comment
}

impl ObsMock {
    /// The revision history of a package, in order, one line per revision.
    pub fn package_history(&self, project_name: &String, package_name: &String) -> (r: Result<
        Vec<MockHistoryEntry>,
        MockApiError,
    >)
        requires
            self.wf(),
        ensures
            match r {
                Ok(hs) => {
                    &&& self.spec_has_project(project_name@)
                    &&& self.spec_project(project_name@).spec_has_package(package_name@)
                    &&& ({
                        let p = self.spec_project(project_name@).spec_package(package_name@);
                        &&& hs@.len() == p.revisions@.len()
                        &&& forall|i: int|
                            0 <= i < hs@.len() ==> spec_history_matches(#[trigger] hs@[i], p, i)
                    })
                },
                Err(e) => match e {
                    MockApiError::UnknownProject { project } => project@ == project_name@
                        && !self.spec_has_project(project_name@),
                    MockApiError::UnknownPackage { package } => package@ == package_name@
                        && self.spec_has_project(project_name@) && !self.spec_project(
                        project_name@,
                    ).spec_has_package(package_name@),
                    _ => false,
                },
            },
    {
        let proj = match self.project_ref(project_name) {
            Some(p) => p,
            None => {
                return Err(MockApiError::UnknownProject { project: project_name.clone() });
            },
        };
        let pkg = match proj.package(package_name) {
            Some(p) => p,
            None => {
                return Err(MockApiError::UnknownPackage { package: package_name.clone() });
            },
        };
        let mut hs: Vec<MockHistoryEntry> = Vec::new();
        let mut i: usize = 0;
        while i < pkg.revisions.len()
            invariant
                pkg.wf(),
                i <= pkg.revisions@.len(),
                hs@.len() == i,
                forall|j: int| 0 <= j < i ==> spec_history_matches(#[trigger] hs@[j], *pkg, j),
            decreases pkg.revisions@.len() - i,
        {
            let rev = &pkg.revisions[i];
            let vrev = match rev.vrev {
                Some(v) => v,
                None => {
                    proof {
                        assert(false);
                    }
                    unreached()
                },
            };
            hs.push(
                MockHistoryEntry {
                    rev: (i + 1) as u64,
                    vrev,
                    srcmd5: rev.options.srcmd5.clone(),
                    version: clone_opt_string(&rev.options.version),
                    time: rev.options.time,
                    user: rev.options.user.clone(),
                    comment: clone_opt_string(&rev.options.comment),
                },
            );
            i = i + 1;
        }
        Ok(hs)
    }

    /// The listing one revision of a package is served as. A missing `rev`
    /// parameter selects the latest revision of the chosen stream; an index
    /// of zero, or an empty source history, selects the zero revision.
    pub fn package_listing(
        &self,
        project_name: &String,
        package_name: &String,
        rev_param: &Option<String>,
        meta_param: &Option<String>,
    ) -> (r: Result<SourceListing, MockApiError>)
        requires
            self.wf(),
        ensures
            match r {
                Ok(l) => {
                    &&& self.spec_has_project(project_name@)
                    &&& self.spec_project(project_name@).spec_has_package(package_name@)
                    &&& ({
                        let p = self.spec_project(project_name@).spec_package(package_name@);
                        let meta = spec_meta_flag(*meta_param) == Some(true);
                        let revs_len = if meta {
                            p.meta_revisions@.len()
                        } else {
                            p.revisions@.len()
                        };
                        let rev_id = match *rev_param {
                            Some(s) => spec_digits_value(s@),
                            None => revs_len as int,
                        };
                        &&& spec_meta_flag(*meta_param) is Some
                        &&& (match *rev_param {
                            Some(s) => spec_is_digits(s@),
                            None => true,
                        })
                        &&& rev_id <= revs_len
                        &&& (rev_id == 0 ==> !meta && spec_zero_listing(l, package_name@))
                        &&& (rev_id > 0 ==> spec_listing_matches(
                            l,
                            package_name@,
                            p,
                            meta,
                            rev_id,
                        ))
                    })
                },
                Err(e) => {
                    let known = self.spec_has_project(project_name@) && self.spec_project(
                        project_name@,
                    ).spec_has_package(package_name@);
                    match e {
                        MockApiError::UnknownProject { project } => project@ == project_name@
                            && !self.spec_has_project(project_name@),
                        MockApiError::UnknownPackage { package } => package@ == package_name@
                            && self.spec_has_project(project_name@) && !self.spec_project(
                            project_name@,
                        ).spec_has_package(package_name@),
                        MockApiError::NotBoolean => known && spec_meta_flag(*meta_param) is None,
                        MockApiError::BadRevision { arg } => known && spec_meta_flag(*meta_param)
                            is Some && (*rev_param matches Some(s) && arg@ == s@ && (
                        !spec_is_digits(s@) || spec_digits_value(s@) > usize::MAX)),
                        MockApiError::NoSuchRevision => known && spec_meta_flag(*meta_param)
                            is Some && ({
                            let p = self.spec_project(project_name@).spec_package(package_name@);
                            let meta = spec_meta_flag(*meta_param) == Some(true);
                            let revs_len = if meta {
                                p.meta_revisions@.len()
                            } else {
                                p.revisions@.len()
                            };
                            *rev_param matches Some(s) && spec_is_digits(s@) && ({
                                let n = spec_digits_value(s@);
                                n <= usize::MAX && (n > revs_len || (n == 0 && meta))
                            })
                        }),
                        _ => false,
                    }
                },
            },
    {
        let proj = match self.project_ref(project_name) {
            Some(p) => p,
            None => {
                return Err(MockApiError::UnknownProject { project: project_name.clone() });
            },
        };
        let pkg = match proj.package(package_name) {
            Some(p) => p,
            None => {
                return Err(MockApiError::UnknownPackage { package: package_name.clone() });
            },
        };
        let meta = match parse_meta_flag(meta_param) {
            Ok(b) => b,
            Err(e) => {
                return Err(e);
            },
        };
        let revs_len = if meta {
            pkg.meta_revisions.len()
        } else {
            pkg.revisions.len()
        };
        let rev_id: usize = match rev_param {
            Some(s) => {
                match parse_rev(s) {
                    Some(n) => {
                        if n > revs_len || (n == 0 && meta) {
                            return Err(MockApiError::NoSuchRevision);
                        }
                        n
                    },
                    None => {
                        return Err(MockApiError::BadRevision { arg: s.clone() });
                    },
                }
            },
            None => revs_len,
        };
        if rev_id == 0 {
            return Ok(build_zero_listing(package_name));
        }
        Ok(build_listing(package_name, pkg, meta, rev_id))
    }

    /// The bytes of one file of a package: the `_meta` path serves the
    /// latest metadata blob, any other path is looked up in the latest
    /// source revision.
    pub fn package_source_file(
        &self,
        project_name: &String,
        package_name: &String,
        file_name: &String,
    ) -> (r: Result<Vec<u8>, MockApiError>)
        requires
            self.wf(),
        ensures
            match r {
                Ok(bytes) => {
                    &&& self.spec_has_project(project_name@)
                    &&& self.spec_project(project_name@).spec_has_package(package_name@)
                    &&& ({
                        let p = self.spec_project(project_name@).spec_package(package_name@);
                        if file_name@ == spec_meta_path() {
                            bytes@ == store_contents(
                                p.files@,
                                spec_meta_path(),
                                p.meta_revisions@.last().entries@[0].entry.md5@,
                            )
                        } else {
                            &&& p.revisions@.len() > 0
                            &&& entries_has(p.revisions@.last().entries@, file_name@)
                            &&& bytes@ == store_contents(
                                p.files@,
                                file_name@,
                                entries_at(p.revisions@.last().entries@, file_name@).md5@,
                            )
                        }
                    })
                },
                Err(e) => match e {
                    MockApiError::UnknownProject { project } => project@ == project_name@
                        && !self.spec_has_project(project_name@),
                    MockApiError::UnknownPackage { package } => package@ == package_name@
                        && self.spec_has_project(project_name@) && !self.spec_project(
                        project_name@,
                    ).spec_has_package(package_name@),
                    MockApiError::SourceFileNotFound { name } => {
                        &&& name@ == file_name@
                        &&& file_name@ != spec_meta_path()
                        &&& self.spec_has_project(project_name@)
                        &&& self.spec_project(project_name@).spec_has_package(package_name@)
                        &&& ({
                            let p = self.spec_project(project_name@).spec_package(package_name@);
                            p.revisions@.len() == 0 || !entries_has(
                                p.revisions@.last().entries@,
                                file_name@,
                            )
                        })
                    },
                    _ => false,
                },
            },
    {
        let proj = match self.project_ref(project_name) {
            Some(p) => p,
            None => {
                return Err(MockApiError::UnknownProject { project: project_name.clone() });
            },
        };
        let pkg = match proj.package(package_name) {
            Some(p) => p,
            None => {
                return Err(MockApiError::UnknownPackage { package: package_name.clone() });
            },
        };
        if *file_name == crate::metaxml::meta_path() {
            let mrev = &pkg.meta_revisions[pkg.meta_revisions.len() - 1];
            let entry = &mrev.entries[0];
            let contents = match pkg.file_contents(&entry.path, &entry.entry.md5) {
                Some(c) => c,
                None => {
                    proof {
                        assert(false);
                    }
                    unreached()
                },
            };
            Ok(clone_bytes(contents))
        } else {
            if pkg.revisions.len() == 0 {
                return Err(MockApiError::SourceFileNotFound { name: file_name.clone() });
            }
            let rev = &pkg.revisions[pkg.revisions.len() - 1];
            let found = entries_find(&rev.entries, file_name);
            match found {
                Some(i) => {
                    proof {
                        lemma_entries_index(rev.entries@, file_name@, i as int);
                    }
                    let entry = &rev.entries[i];
                    let contents = match pkg.file_contents(&entry.path, &entry.entry.md5) {
                        Some(c) => c,
                        None => {
                            proof {
                                assert(false);
                            }
                            unreached()
                        },
                    };
                    Ok(clone_bytes(contents))
                },
                None => Err(MockApiError::SourceFileNotFound { name: file_name.clone() }),
            }
        }
    }

    /// The names of a project's packages, in insertion order.
    pub fn project_packages(&self, project_name: &String) -> (r: Result<Vec<String>, MockApiError>)
        requires
            self.wf(),
        ensures
            match r {
                Ok(names) => {
                    &&& self.spec_has_project(project_name@)
                    &&& ({
                        let proj = self.spec_project(project_name@);
                        &&& names@.len() == proj.packages@.len()
                        &&& forall|i: int|
                            0 <= i < names@.len() ==> (#[trigger] names@[i])@
                                == proj.packages@[i].name@
                    })
                },
                Err(e) => e matches MockApiError::UnknownProject { project } && project@
                    == project_name@ && !self.spec_has_project(project_name@),
            },
    {
        let proj = match self.project_ref(project_name) {
            Some(p) => p,
            None => {
                return Err(MockApiError::UnknownProject { project: project_name.clone() });
            },
        };
        let mut names: Vec<String> = Vec::new();
        let mut i: usize = 0;
        while i < proj.packages.len()
            invariant
                i <= proj.packages@.len(),
                names@.len() == i,
                forall|j: int|
                    0 <= j < i ==> (#[trigger] names@[j])@ == proj.packages@[j].name@,
            decreases proj.packages@.len() - i,
        {
            names.push(proj.packages[i].name.clone());
            i = i + 1;
        }
        Ok(names)
    }
}

// ---------------------------------------------------------------------------
// The commit protocol.
// ---------------------------------------------------------------------------

/// One claimed file of a commit request: a path and the digest the caller
/// says its bytes have.
#[derive(Debug)]
pub struct CommitEntry {
    pub name: String,
    pub md5: String,
}

impl Clone for CommitEntry {
    fn clone(&self) -> (r: Self)
        ensures
            r == *self,
    {
        CommitEntry { name: self.name.clone(), md5: self.md5.clone() }
    }
}

impl CommitEntry {
    /// A claim for the given bytes: their digest is computed here.
    pub fn from_contents(name: String, contents: &[u8]) -> (r: CommitEntry)
        ensures
            r.name@ == name@,
            r.md5@ == md5_hex_of(contents@),
    {
        let md5 = content_md5(contents);
        CommitEntry { name, md5 }
    }
}

/// What a commit returns: the listing of the new revision, or the claims
/// whose blobs the caller still has to upload.
#[derive(Debug)]
pub enum CommitOutcome {
    Committed(SourceListing),
    MissingEntries(Vec<CommitEntry>),
}

/// No two claims share a path.
pub open spec fn spec_claims_unique(cs: Seq<CommitEntry>) -> bool {
    forall|i: int, j: int| 0 <= i < j < cs.len() ==> cs[i].name@ != cs[j].name@
}

/// The claims whose blobs the store does not hold, in claim order.
pub open spec fn spec_missing_of(cs: Seq<CommitEntry>, files: Seq<MockStoredFile>) -> Seq<
    CommitEntry,
>
    decreases cs.len(),
{
    if cs.len() == 0 {
        Seq::<CommitEntry>::empty()
    } else {
        let rest = spec_missing_of(cs.drop_last(), files);
        if store_has(files, cs.last().name@, cs.last().md5@) {
            rest
        } else {
            rest.push(cs.last())
        }
    }
}

/// The revision entries a commit writes for its claims, stamped with one
/// modification time.
pub open spec fn spec_claim_entries(cs: Seq<CommitEntry>, time: u64) -> Seq<MockRevisionEntry>
    decreases cs.len(),
{
    if cs.len() == 0 {
        Seq::<MockRevisionEntry>::empty()
    } else {
        spec_claim_entries(cs.drop_last(), time).push(
            MockRevisionEntry {
                path: cs.last().name,
                entry: MockEntry { md5: cs.last().md5, mtime: time },
            },
        )
    }
}

/// The entries a commit writes mirror its claims, one for one.
pub proof fn lemma_claim_entries_props(cs: Seq<CommitEntry>, time: u64)
    ensures
        spec_claim_entries(cs, time).len() == cs.len(),
        forall|i: int|
            0 <= i < cs.len() ==> {
                let e = #[trigger] spec_claim_entries(cs, time)[i];
                &&& e.path == cs[i].name
                &&& e.entry.md5 == cs[i].md5
                &&& e.entry.mtime == time
            },
    decreases cs.len(),
{
    if cs.len() > 0 {
        lemma_claim_entries_props(cs.drop_last(), time);
    }
}

/// When nothing is reported missing, every claimed blob is in the store.
pub proof fn lemma_no_missing_all_present(cs: Seq<CommitEntry>, files: Seq<MockStoredFile>)
    requires
        spec_missing_of(cs, files).len() == 0,
    ensures
        forall|i: int|
            0 <= i < cs.len() ==> store_has(files, (#[trigger] cs[i]).name@, cs[i].md5@),
    decreases cs.len(),
{
    if cs.len() > 0 {
        lemma_no_missing_all_present(cs.drop_last(), files);
        assert(store_has(files, cs.last().name@, cs.last().md5@));
        assert forall|i: int| 0 <= i < cs.len() implies store_has(
            files,
            (#[trigger] cs[i]).name@,
            cs[i].md5@,
        ) by {
            if i < cs.len() - 1 {
                assert(cs.drop_last()[i] == cs[i]);
            }
        }
    }
}

/// Whether no two claims share a path.
pub fn claims_unique_check(cs: &Vec<CommitEntry>) -> (r: bool)
    ensures
        r == spec_claims_unique(cs@),
{
    let mut i: usize = 0;
    while i < cs.len()
        invariant
            i <= cs@.len(),
            forall|a: int, b: int| 0 <= a < b < i ==> cs@[a].name@ != cs@[b].name@,
        decreases cs@.len() - i,
    {
        let mut j: usize = 0;
        while j < i
            invariant
                j <= i < cs@.len(),
                forall|a: int, b: int| 0 <= a < b < i ==> cs@[a].name@ != cs@[b].name@,
                forall|b: int| 0 <= b < j ==> cs@[b].name@ != cs@[i as int].name@,
            decreases i - j,
        {
            if cs[j].name == cs[i].name {
                return false;
            }
            j = j + 1;
        }
        i = i + 1;
    }
    true
}

impl ObsMock {
    /// The commit protocol: the claimed list is the complete desired file
    /// set for the next revision. If every claimed blob is in the store, a
    /// revision carrying exactly those entries is appended and its listing
    /// returned; otherwise the absent claims are reported and nothing
    /// changes. Claims with duplicate paths are refused.
    pub fn commit(
        &mut self,
        project_name: &String,
        package_name: &String,
        claimed: Vec<CommitEntry>,
        srcmd5: String,
        user: String,
        time: u64,
        comment: Option<String>,
    ) -> (r: Result<CommitOutcome, MockApiError>)
        requires
            old(self).wf(),
            old(self).spec_has_project(project_name@) && old(self).spec_project(
                project_name@,
            ).spec_has_package(package_name@) ==> old(self).spec_project(
                project_name@,
            ).spec_package(package_name@).revisions@.len() < usize::MAX,
        ensures
            final(self).wf(),
            old(self).spec_same_except_project(*final(self), project_name@),
            !old(self).spec_has_project(project_name@) ==> *final(self) == *old(self) && (
            r matches Err(MockApiError::UnknownProject { project }) && project@ == project_name@),
            old(self).spec_has_project(project_name@) && !old(self).spec_project(
                project_name@,
            ).spec_has_package(package_name@) ==> *final(self) == *old(self) && (
            r matches Err(MockApiError::UnknownPackage { package }) && package@ == package_name@),
            old(self).spec_has_project(project_name@) && old(self).spec_project(
                project_name@,
            ).spec_has_package(package_name@) ==> ({
                let oldp = old(self).spec_project(project_name@).spec_package(package_name@);
                &&& (!spec_claims_unique(claimed@) ==> *final(self) == *old(self) && (
                r matches Err(MockApiError::InvalidRequest { .. })))
                &&& (spec_claims_unique(claimed@) && spec_missing_of(claimed@, oldp.files@).len()
                    > 0 ==> *final(self) == *old(self) && (
                r matches Ok(CommitOutcome::MissingEntries(m)) && m@ == spec_missing_of(
                    claimed@,
                    oldp.files@,
                )))
                &&& (spec_claims_unique(claimed@) && spec_missing_of(claimed@, oldp.files@).len()
                    == 0 ==> ({
                    let newproj = final(self).spec_project(project_name@);
                    let newp = newproj.spec_package(package_name@);
                    &&& final(self).spec_has_project(project_name@)
                    &&& old(self).spec_project(project_name@).spec_same_except_package(
                        newproj,
                        package_name@,
                    )
                    &&& newproj.spec_has_package(package_name@)
                    &&& spec_revision_appended(
                        oldp,
                        newp,
                        MockRevisionOptions { srcmd5, version: None, time, user, comment },
                        spec_claim_entries(claimed@, time),
                    )
                    &&& (r matches Ok(CommitOutcome::Committed(l)) && spec_listing_matches(
                        l,
                        package_name@,
                        newp,
                        false,
                        newp.revisions@.len() as int,
                    ))
                }))
            }),
    {
        let ghost old_self = *old(self);
        if !self.contains_project(project_name) {
            return Err(MockApiError::UnknownProject { project: project_name.clone() });
        }
        let has_pkg = match self.project_ref(project_name) {
            Some(p) => p.contains_package(package_name),
            None => {
                proof {
                    assert(false);
                }
                unreached()
            },
        };
        if !has_pkg {
            return Err(MockApiError::UnknownPackage { package: package_name.clone() });
        }
        if !claims_unique_check(&claimed) {
            return Err(
                MockApiError::InvalidRequest {
                    reason: String::from_str("duplicate paths in commit file list"),
                },
            );
        }
        let missing: Vec<CommitEntry> = {
            let proj = match self.project_ref(project_name) {
                Some(p) => p,
                None => {
                    proof {
                        assert(false);
                    }
                    unreached()
                },
            };
            let pkg = match proj.package(package_name) {
                Some(p) => p,
                None => {
                    proof {
                        assert(false);
                    }
                    unreached()
                },
            };
            let mut m: Vec<CommitEntry> = Vec::new();
            let mut i: usize = 0;
            while i < claimed.len()
                invariant
                    i <= claimed@.len(),
                    m@ == spec_missing_of(claimed@.take(i as int), pkg.files@),
                decreases claimed@.len() - i,
            {
                if !pkg.contains_file(&claimed[i].name, &claimed[i].md5) {
                    m.push(claimed[i].clone());
                }
                proof {
                    let t = claimed@.take(i + 1);
                    assert(t.drop_last() =~= claimed@.take(i as int));
                    assert(t.last() == claimed@[i as int]);
                }
                i = i + 1;
            }
            proof {
                assert(claimed@.take(claimed@.len() as int) =~= claimed@);
            }
            m
        };
        if missing.len() > 0 {
            return Ok(CommitOutcome::MissingEntries(missing));
        }
        let mut entries: Vec<MockRevisionEntry> = Vec::new();
        let mut i: usize = 0;
        while i < claimed.len()
            invariant
                i <= claimed@.len(),
                entries@ == spec_claim_entries(claimed@.take(i as int), time),
            decreases claimed@.len() - i,
        {
            let c = &claimed[i];
            entries.push(
                MockRevisionEntry {
                    path: c.name.clone(),
                    entry: MockEntry { md5: c.md5.clone(), mtime: time },
                },
            );
            proof {
                let t = claimed@.take(i + 1);
                assert(t.drop_last() =~= claimed@.take(i as int));
                assert(t.last() == claimed@[i as int]);
            }
            i = i + 1;
        }
        proof {
            assert(claimed@.take(claimed@.len() as int) =~= claimed@);
            lemma_claim_entries_props(claimed@, time);
            let oldp = old_self.spec_project(project_name@).spec_package(package_name@);
            lemma_no_missing_all_present(claimed@, oldp.files@);
            assert forall|a: int, b: int| 0 <= a < b < entries@.len() implies entries@[a].path@
                != entries@[b].path@ by {
                assert(entries@[a].path == claimed@[a].name);
                assert(entries@[b].path == claimed@[b].name);
            }
            assert forall|k: int| 0 <= k < entries@.len() implies store_has(
                oldp.files@,
                (#[trigger] entries@[k]).path@,
                entries@[k].entry.md5@,
            ) by {
                assert(entries@[k].path == claimed@[k].name);
                assert(entries@[k].entry.md5 == claimed@[k].md5);
                assert(store_has(oldp.files@, claimed@[k].name@, claimed@[k].md5@));
            }
        }
        let options = MockRevisionOptions { srcmd5, version: None, time, user, comment };
        let proj = self.project_mut(project_name);
        let pkg = get_package(proj, package_name);
        let res = pkg.add_revision(options, entries);
        match res {
            Ok(()) => {},
            Err(_) => {
                proof {
                    assert(false);
                }
            },
        }
        let rev_id = pkg.revisions.len();
        let listing = build_listing(package_name, pkg, false, rev_id);
        proof {
            let ip = projs_index(old_self.projects@, project_name@);
            let oldproj = old_self.spec_project(project_name@);
            let jp = pkgs_index(oldproj.packages@, package_name@);
            lemma_pkgs_update_frame(oldproj, self.projects@[ip].project, jp);
            lemma_projs_update_frame(old_self, *self, ip);
            assert forall|j2: int| 0 <= j2 < self.projects@.len() implies (
            #[trigger] self.projects@[j2]).project.wf() by {
                if j2 != ip {
                    assert(self.projects@[j2] == old_self.projects@[j2]);
                } else {
                    let np = self.projects@[ip].project;
                    assert forall|k: int| 0 <= k < np.packages@.len() implies (
                    #[trigger] np.packages@[k]).package.wf() by {
                        if k != jp {
                            assert(np.packages@[k] == oldproj.packages@[k]);
                        }
                    }
                }
            }
        }
        Ok(CommitOutcome::Committed(listing))
    }
}

// ---------------------------------------------------------------------------
// The branch protocol.
// ---------------------------------------------------------------------------

/// What a branch request carries: target names (defaulted when absent),
/// the `force` and `missingok` flags, repository-mode overrides for a
/// created target project, attribution, and the two fresh digests the new
/// revision is to be written under.
#[derive(Debug)]
pub struct BranchParams {
    pub target_project: Option<String>,
    pub target_package: Option<String>,
    pub force: bool,
    pub missingok: bool,
    pub add_repositories_rebuild: Option<MockRebuildMode>,
    pub add_repositories_block: Option<MockBlockMode>,
    pub comment: Option<String>,
    pub user: String,
    pub time: u64,
    pub srcmd5: String,
    pub xsrcmd5: String,
}

/// What a successful branch reports: where it read from and where it wrote.
#[derive(Debug)]
pub struct BranchStatus {
    pub source_project: String,
    pub source_package: String,
    pub target_project: String,
    pub target_package: String,
}

/// The project a branch writes into: as requested, or the caller's home
/// branch area for the origin project.
pub open spec fn spec_branch_target_project(
    params: BranchParams,
    origin_project: Seq<char>,
) -> Seq<char> {
    match params.target_project {
        Some(t) => t@,
        None => "home:"@ + params.user@ + ":branches:"@ + origin_project,
    }
}

/// The package a branch writes: as requested, or named like the origin.
pub open spec fn spec_branch_target_package(
    params: BranchParams,
    origin_package: Seq<char>,
) -> Seq<char> {
    match params.target_package {
        Some(t) => t@,
        None => origin_package,
    }
}

/// The repositories a created target project starts with: the origin
/// project's, or none.
pub open spec fn spec_origin_repos(s: ObsMock, name: Seq<char>) -> Seq<MockRepositorySlot> {
    if s.spec_has_project(name) {
        s.spec_project(name).repos@
    } else {
        Seq::<MockRepositorySlot>::empty()
    }
}

/// The branch options a request's parameters stand for.
pub open spec fn spec_branch_options(params: BranchParams) -> MockBranchOptions {
    MockBranchOptions {
        srcmd5: params.srcmd5,
        xsrcmd5: params.xsrcmd5,
        user: params.user,
        time: params.time,
        comment: params.comment,
        missingok: params.missingok,
    }
}

impl ObsMock {
    /// The branch protocol. The origin package's latest revision is copied
    /// into the target package, with a provenance link back to it; the
    /// target project is created first if it does not exist, inheriting the
    /// origin project's repositories and the requested modes. `missingok`
    /// permits a missing origin, and must not be given when the origin
    /// package exists; an existing target package is only overwritten under
    /// `force`.
    pub fn do_branch(
        &mut self,
        origin_project_name: &String,
        origin_package_name: &String,
        params: BranchParams,
    ) -> (r: Result<BranchStatus, MockApiError>)
        requires
            old(self).wf(),
        ensures
            final(self).wf(),
            ({
                let tproj = spec_branch_target_project(params, origin_project_name@);
                let tpkg = spec_branch_target_package(params, origin_package_name@);
                let has_origin = old(self).spec_has_project(origin_project_name@);
                let pkg_exists = has_origin && old(self).spec_project(
                    origin_project_name@,
                ).spec_has_package(origin_package_name@);
                let double = old(self).spec_has_project(tproj) && old(self).spec_project(
                    tproj,
                ).spec_has_package(tpkg) && !params.force;
                let c1 = !has_origin && !params.missingok;
                let c2 = !c1 && pkg_exists && params.missingok;
                let c3 = !c1 && !c2 && !pkg_exists && !params.missingok;
                let c4 = !c1 && !c2 && !c3 && double;
                &&& (r is Err ==> *final(self) == *old(self))
                &&& (c1 ==> (r matches Err(MockApiError::UnknownProject { project }) && project@
                    == origin_project_name@))
                &&& (c2 ==> (r matches Err(MockApiError::NotMissing { project, package })
                    && project@ == origin_project_name@ && package@ == origin_package_name@))
                &&& (c3 ==> (r matches Err(MockApiError::UnknownPackage { package }) && package@
                    == origin_package_name@))
                &&& (c4 ==> (r matches Err(
                    MockApiError::DoubleBranchPackage { target_project, target_package },
                ) && target_project@ == tproj && target_package@ == tpkg))
                &&& (!c1 && !c2 && !c3 && !c4 ==> ({
                    let newproj = final(self).spec_project(tproj);
                    &&& (r matches Ok(st) && st.source_project@ == origin_project_name@
                        && st.source_package@ == origin_package_name@ && st.target_project@
                        == tproj && st.target_package@ == tpkg)
                    &&& old(self).spec_same_except_project(*final(self), tproj)
                    &&& final(self).spec_has_project(tproj)
                    &&& newproj.spec_has_package(tpkg)
                    &&& spec_branched_package(
                        newproj.spec_package(tpkg),
                        origin_project_name@,
                        origin_package_name@,
                        if pkg_exists {
                            Some(
                                old(self).spec_project(origin_project_name@).spec_package(
                                    origin_package_name@,
                                ),
                            )
                        } else {
                            None
                        },
                        tproj,
                        tpkg,
                        spec_branch_options(params),
                    )
                    &&& (old(self).spec_has_project(tproj) ==> old(self).spec_project(
                        tproj,
                    ).spec_same_except_package(newproj, tpkg))
                    &&& (!old(self).spec_has_project(tproj) ==> ({
                        &&& newproj.packages@.len() == 1
                        &&& spec_repos_shape_eq(
                            spec_origin_repos(*old(self), origin_project_name@),
                            newproj.repos@,
                        )
                        &&& newproj.rebuild == (match params.add_repositories_rebuild {
                            Some(m) => m,
                            None => MockRebuildMode::Transitive,
                        })
                        &&& newproj.block == (match params.add_repositories_block {
                            Some(m) => m,
                            None => MockBlockMode::All,
                        })
                    }))
                }))
            }),
    {
        let ghost old_self = *old(self);
        let target_project_name: String = match &params.target_project {
            Some(t) => t.clone(),
            None => {
                let mut s = String::new();
                s.append("home:");
                s.append(params.user.as_str());
                s.append(":branches:");
                s.append(origin_project_name.as_str());
                proof {
                    assert(s@ =~= "home:"@ + params.user@ + ":branches:"@
                        + origin_project_name@);
                }
                s
            },
        };
        let target_package_name: String = match &params.target_package {
            Some(t) => t.clone(),
            None => origin_package_name.clone(),
        };
        proof {
            assert(target_project_name@ == spec_branch_target_project(
                params,
                origin_project_name@,
            ));
            assert(target_package_name@ == spec_branch_target_package(
                params,
                origin_package_name@,
            ));
        }
        let has_origin = self.contains_project(origin_project_name);
        if !has_origin && !params.missingok {
            return Err(MockApiError::UnknownProject { project: origin_project_name.clone() });
        }
        let pkg_exists = if has_origin {
            match self.project_ref(origin_project_name) {
                Some(p) => p.contains_package(origin_package_name),
                None => {
                    proof {
                        assert(false);
                    }
                    unreached()
                },
            }
        } else {
            false
        };
        if pkg_exists && params.missingok {
            return Err(
                MockApiError::NotMissing {
                    project: origin_project_name.clone(),
                    package: origin_package_name.clone(),
                },
            );
        }
        if !pkg_exists && !params.missingok {
            return Err(MockApiError::UnknownPackage { package: origin_package_name.clone() });
        }
        let target_exists = self.contains_project(&target_project_name);
        let double = if target_exists {
            match self.project_ref(&target_project_name) {
                Some(p) => p.contains_package(&target_package_name),
                None => {
                    proof {
                        assert(false);
                    }
                    unreached()
                },
            }
        } else {
            false
        };
        if double && !params.force {
            return Err(
                MockApiError::DoubleBranchPackage {
                    target_project: target_project_name,
                    target_package: target_package_name,
                },
            );
        }
        let opts = MockBranchOptions {
            srcmd5: params.srcmd5,
            xsrcmd5: params.xsrcmd5,
            user: params.user,
            time: params.time,
            comment: params.comment,
            missingok: params.missingok,
        };
        let pkg = if pkg_exists {
            let origin_proj = match self.project_ref(origin_project_name) {
                Some(p) => p,
                None => {
                    proof {
                        assert(false);
                    }
                    unreached()
                },
            };
            let origin_pkg = match origin_proj.package(origin_package_name) {
                Some(p) => p,
                None => {
                    proof {
                        assert(false);
                    }
                    unreached()
                },
            };
            MockPackage::new_branched(
                origin_project_name.clone(),
                origin_package_name.clone(),
                Some(origin_pkg),
                &target_project_name,
                &target_package_name,
                opts,
            )
        } else {
            MockPackage::new_branched(
                origin_project_name.clone(),
                origin_package_name.clone(),
                None,
                &target_project_name,
                &target_package_name,
                opts,
            )
        };
        if !target_exists {
            let repos = if has_origin {
                match self.project_ref(origin_project_name) {
                    Some(p) => clone_repos(&p.repos),
                    None => {
                        proof {
                            assert(false);
                        }
                        unreached()
                    },
                }
            } else {
                Vec::new()
            };
            let rebuild = match params.add_repositories_rebuild {
                Some(m) => m,
                None => MockRebuildMode::Transitive,
            };
            let block = match params.add_repositories_block {
                Some(m) => m,
                None => MockBlockMode::All,
            };
            proof {
                let orep = spec_origin_repos(old_self, origin_project_name@);
                if has_origin {
                    let i = projs_index(old_self.projects@, origin_project_name@);
                }
                assert forall|i2: int, j2: int| 0 <= i2 < j2 < repos@.len() implies
                    repos@[i2].name@ != repos@[j2].name@ by {
                    assert(repos@[i2].name@ == orep[i2].name@);
                    assert(repos@[j2].name@ == orep[j2].name@);
                }
                assert forall|i2: int| 0 <= i2 < repos@.len() implies crate::project::arches_unique(
                    (#[trigger] repos@[i2]).arches@,
                ) by {
                    assert forall|a: int, b: int|
                        0 <= a < b < repos@[i2].arches@.len() implies repos@[i2].arches@[a].arch@
                        != repos@[i2].arches@[b].arch@ by {
                        assert(repos@[i2].arches@[a].arch@ == orep[i2].arches@[a].arch@);
                        assert(repos@[i2].arches@[b].arch@ == orep[i2].arches@[b].arch@);
                    }
                }
                assert forall|i2: int, j2: int|
                    0 <= i2 < repos@.len() && 0 <= j2 < repos@[i2].arches@.len() implies
                    crate::project::cellpkgs_unique(
                    #[trigger] repos@[i2].arches@[j2].repo.packages@,
                ) by {
                    let pa = repos@[i2].arches@[j2].repo.packages@;
                    let po = orep[i2].arches@[j2].repo.packages@;
                    assert forall|a: int, b: int| 0 <= a < b < pa.len() implies pa[a].name@
                        != pa[b].name@ by {
                        assert(pa[a].name@ == po[a].name@);
                        assert(pa[b].name@ == po[b].name@);
                    }
                }
            }
            let newproj = MockProject {
                packages: Vec::new(),
                repos,
                rebuild,
                block,
                rebuild_status: MockBuildStatus::default(),
            };
            let slot = crate::registry::MockProjectSlot {
                name: target_project_name.clone(),
                project: newproj,
            };
            self.projects.push(slot);
            proof {
                let qs = self.projects@;
                let old_ps = old_self.projects@;
                let n0 = old_ps.len() as int;
                let target = target_project_name@;
                assert forall|i2: int, j2: int| 0 <= i2 < j2 < qs.len() implies qs[i2].name@
                    != qs[j2].name@ by {
                    if j2 < n0 {
                        assert(old_ps[i2].name@ != old_ps[j2].name@);
                    } else {
                        assert(old_ps[i2].name@ != target);
                    }
                }
                crate::registry::lemma_projs_index(qs, target, n0);
                assert forall|n: Seq<char>| n != target implies #[trigger] crate::registry::projs_has(
                    qs,
                    n,
                ) == crate::registry::projs_has(old_ps, n) by {
                    if crate::registry::projs_has(qs, n) {
                        let j = crate::registry::projs_index(qs, n);
                        assert(j < n0);
                        assert(old_ps[j].name@ == n);
                    }
                    if crate::registry::projs_has(old_ps, n) {
                        let j = crate::registry::projs_index(old_ps, n);
                        assert(qs[j].name@ == n);
                    }
                }
                assert forall|n: Seq<char>|
                    n != target && #[trigger] crate::registry::projs_has(old_ps, n) implies
                    crate::registry::projs_at(qs, n) == crate::registry::projs_at(old_ps, n) by {
                    let j = crate::registry::projs_index(old_ps, n);
                    assert(qs[j].name@ == n);
                    crate::registry::lemma_projs_index(qs, n, j);
                    crate::registry::lemma_projs_index(old_ps, n, j);
                }
            }
        }
        let ghost mid_self = *self;
        let proj = self.project_mut(&target_project_name);
        proj.insert_package(target_package_name.clone(), pkg);
        proof {
            let tproj = target_project_name@;
            let i = projs_index(mid_self.projects@, tproj);
            lemma_projs_update_frame(mid_self, *self, i);
            assert forall|j: int| 0 <= j < self.projects@.len() implies (
            #[trigger] self.projects@[j]).project.wf() by {
                if j != i {
                    assert(self.projects@[j] == mid_self.projects@[j]);
                }
            }
            assert(old_self.spec_same_except_project(mid_self, tproj));
            assert forall|n: Seq<char>| n != tproj implies #[trigger] self.spec_has_project(n)
                == old_self.spec_has_project(n) by {
                assert(mid_self.spec_has_project(n) == old_self.spec_has_project(n));
                assert(self.spec_has_project(n) == mid_self.spec_has_project(n));
            }
            assert forall|n: Seq<char>| n != tproj && #[trigger] old_self.spec_has_project(n)
                implies self.spec_project(n) == old_self.spec_project(n) by {
                assert(mid_self.spec_has_project(n));
                assert(mid_self.spec_project(n) == old_self.spec_project(n));
                assert(self.spec_project(n) == mid_self.spec_project(n));
            }
            assert(old_self.spec_same_except_project(*self, tproj));
        }
        Ok(
            BranchStatus {
                source_project: origin_project_name.clone(),
                source_package: origin_package_name.clone(),
                target_project: target_project_name,
                target_package: target_package_name,
            },
        )
    }
}

// ---------------------------------------------------------------------------
// Placement, deletion, project metadata.
// ---------------------------------------------------------------------------

/// What a source-file upload did: wrote package metadata, or stored a blob
/// for a later commit under the returned key.
#[derive(Debug)]
pub enum PlacementOutcome {
    MetaWritten,
    Stored(MockSourceFileKey),
}

/// One repository of a project's metadata document.
#[derive(Debug)]
pub struct RepoMetaInfo {
    pub name: String,
    pub arches: Vec<String>,
}

/// A project's metadata document: its modes and its repositories with their
/// architectures.
#[derive(Debug)]
pub struct ProjectMetaInfo {
    pub name: String,
    pub rebuild: MockRebuildMode,
    pub block: MockBlockMode,
    pub repos: Vec<RepoMetaInfo>,
}

impl ObsMock {
    /// Serves a PUT of one source file. Writing `_meta` creates the package
    /// if it does not exist and is otherwise ignored; any other file must
    /// name an existing package and carry `rev=repository`, and is stored
    /// as a blob for a later commit.
    pub fn place_source_file(
        &mut self,
        project_name: &String,
        package_name: &String,
        file_name: &String,
        contents: Vec<u8>,
        rev_param: &Option<String>,
        meta_srcmd5: String,
        user: String,
        time: u64,
    ) -> (r: Result<PlacementOutcome, MockApiError>)
        requires
            old(self).wf(),
        ensures
            final(self).wf(),
            old(self).spec_same_except_project(*final(self), project_name@),
            !old(self).spec_has_project(project_name@) ==> *final(self) == *old(self) && (
            r matches Err(MockApiError::UnknownProject { project }) && project@ == project_name@),
            old(self).spec_has_project(project_name@) && file_name@ == spec_meta_path() ==> ({
                &&& r matches Ok(PlacementOutcome::MetaWritten)
                &&& (old(self).spec_project(project_name@).spec_has_package(package_name@)
                    ==> *final(self) == *old(self))
                &&& (!old(self).spec_project(project_name@).spec_has_package(package_name@)
                    ==> ({
                    let oldproj = old(self).spec_project(project_name@);
                    let newproj = final(self).spec_project(project_name@);
                    let meta_md5 = md5_hex_of(
                        spec_meta_bytes(
                            project_name@,
                            package_name@,
                            Seq::<crate::types::MockPackageDisabledBuild>::empty(),
                        ),
                    );
                    &&& oldproj.spec_same_except_package(newproj, package_name@)
                    &&& newproj.spec_has_package(package_name@)
                    &&& ({
                        let p = newproj.spec_package(package_name@);
                        &&& p.revisions@.len() == 0
                        &&& p.meta_revisions@.len() == 1
                        &&& p.meta_revisions@[0].options.srcmd5@ == meta_srcmd5@
                        &&& p.meta_revisions@[0].options.time == time
                        &&& p.meta_revisions@[0].options.user@ == user@
                        &&& p.meta_revisions@[0].entries@.len() == 1
                        &&& p.meta_revisions@[0].entries@[0].entry.md5@ == meta_md5
                        &&& store_has(p.files@, spec_meta_path(), meta_md5)
                        &&& p.disabled@.len() == 0
                    })
                }))
            }),
            old(self).spec_has_project(project_name@) && file_name@ != spec_meta_path() && !old(
                self,
            ).spec_project(project_name@).spec_has_package(package_name@) ==> *final(self) == *old(
                self,
            ) && (r matches Err(MockApiError::UnknownPackage { package }) && package@
                == package_name@),
            old(self).spec_has_project(project_name@) && file_name@ != spec_meta_path() && old(
                self,
            ).spec_project(project_name@).spec_has_package(package_name@) ==> ({
                let is_repository = *rev_param matches Some(s) && s@ == "repository"@;
                &&& (!is_repository ==> *final(self) == *old(self) && r matches Err(
                    MockApiError::UnsupportedOperation,
                ))
                &&& (is_repository ==> ({
                    let oldproj = old(self).spec_project(project_name@);
                    let newproj = final(self).spec_project(project_name@);
                    let oldp = oldproj.spec_package(package_name@);
                    let newp = newproj.spec_package(package_name@);
                    &&& (r matches Ok(PlacementOutcome::Stored(key)) && key.path@ == file_name@
                        && key.md5@ == md5_hex_of(contents@))
                    &&& oldproj.spec_same_except_package(newproj, package_name@)
                    &&& newproj.spec_has_package(package_name@)
                    &&& store_has(newp.files@, file_name@, md5_hex_of(contents@))
                    &&& store_contents(newp.files@, file_name@, md5_hex_of(contents@))
                        == contents@
                    &&& (forall|p: Seq<char>, m: Seq<char>|
                        #[trigger] store_has(oldp.files@, p, m) ==> store_has(newp.files@, p, m))
                    &&& newp.revisions == oldp.revisions
                    &&& newp.meta_revisions == oldp.meta_revisions
                    &&& newp.latest_vrevs == oldp.latest_vrevs
                    &&& newp.disabled == oldp.disabled
                }))
            }),
    {
        if !self.contains_project(project_name) {
            return Err(MockApiError::UnknownProject { project: project_name.clone() });
        }
        if *file_name == crate::metaxml::meta_path() {
            let has_pkg = match self.project_ref(project_name) {
                Some(p) => p.contains_package(package_name),
                None => {
                    proof {
                        assert(false);
                    }
                    unreached()
                },
            };
            if !has_pkg {
                let options = crate::types::MockPackageOptions {
                    meta_srcmd5,
                    time,
                    user,
                    disabled: Vec::new(),
                };
                self.add_new_package(project_name, package_name.clone(), options);
            }
            Ok(PlacementOutcome::MetaWritten)
        } else {
            let has_pkg = match self.project_ref(project_name) {
                Some(p) => p.contains_package(package_name),
                None => {
                    proof {
                        assert(false);
                    }
                    unreached()
                },
            };
            if !has_pkg {
                return Err(MockApiError::UnknownPackage { package: package_name.clone() });
            }
            let is_repository = match rev_param {
                Some(s) => *s == String::from_str("repository"),
                None => false,
            };
            if !is_repository {
                return Err(MockApiError::UnsupportedOperation);
            }
            let file = crate::types::MockSourceFile { path: file_name.clone(), contents };
            let key = self.add_package_files(project_name, package_name, file);
            Ok(PlacementOutcome::Stored(key))
        }
    }

    /// Deletes a package: it leaves its project, and its build results leave
    /// every repository cell.
    pub fn delete_package(&mut self, project_name: &String, package_name: &String) -> (r: Result<
        (),
        MockApiError,
    >)
        requires
            old(self).wf(),
        ensures
            final(self).wf(),
            old(self).spec_same_except_project(*final(self), project_name@),
            !old(self).spec_has_project(project_name@) ==> *final(self) == *old(self) && (
            r matches Err(MockApiError::UnknownProject { project }) && project@ == project_name@),
            old(self).spec_has_project(project_name@) && !old(self).spec_project(
                project_name@,
            ).spec_has_package(package_name@) ==> *final(self) == *old(self) && (
            r matches Err(MockApiError::UnknownPackage { package }) && package@ == package_name@),
            old(self).spec_has_project(project_name@) && old(self).spec_project(
                project_name@,
            ).spec_has_package(package_name@) ==> ({
                let oldproj = old(self).spec_project(project_name@);
                let newproj = final(self).spec_project(project_name@);
                &&& r is Ok
                &&& final(self).spec_has_project(project_name@)
                &&& !newproj.spec_has_package(package_name@)
                &&& (forall|n: Seq<char>|
                    n != package_name@ ==> #[trigger] newproj.spec_has_package(n)
                        == oldproj.spec_has_package(n))
                &&& (forall|n: Seq<char>|
                    n != package_name@ && #[trigger] oldproj.spec_has_package(n)
                        ==> newproj.spec_package(n) == oldproj.spec_package(n))
                &&& newproj.rebuild == oldproj.rebuild
                &&& newproj.block == oldproj.block
                &&& newproj.repos@.len() == oldproj.repos@.len()
                &&& (forall|i: int|
                    0 <= i < oldproj.repos@.len() ==> crate::project::spec_repo_purged(
                        oldproj.repos@[i],
                        #[trigger] newproj.repos@[i],
                        package_name@,
                    ))
            }),
    {
        let ghost old_self = *old(self);
        if !self.contains_project(project_name) {
            return Err(MockApiError::UnknownProject { project: project_name.clone() });
        }
        let has_pkg = match self.project_ref(project_name) {
            Some(p) => p.contains_package(package_name),
            None => {
                proof {
                    assert(false);
                }
                unreached()
            },
        };
        if !has_pkg {
            return Err(MockApiError::UnknownPackage { package: package_name.clone() });
        }
        let proj = self.project_mut(project_name);
        proj.remove_package(package_name);
        let ghost midproj = *proj;
        proj.purge_repo_package(package_name);
        proof {
            let i = projs_index(old_self.projects@, project_name@);
            lemma_projs_update_frame(old_self, *self, i);
            assert forall|j: int| 0 <= j < self.projects@.len() implies (
            #[trigger] self.projects@[j]).project.wf() by {
                if j != i {
                    assert(self.projects@[j] == old_self.projects@[j]);
                }
            }
            let oldproj = old_self.spec_project(project_name@);
            let newproj = self.projects@[i].project;
            assert(newproj.packages == midproj.packages);
            assert forall|n: Seq<char>| n != package_name@ implies #[trigger] newproj.spec_has_package(
                n,
            ) == oldproj.spec_has_package(n) by {
                assert(midproj.spec_has_package(n) == oldproj.spec_has_package(n));
            }
        }
        Ok(())
    }

    /// Deletes a project with everything in it.
    pub fn project_delete(&mut self, project_name: &String) -> (r: Result<(), MockApiError>)
        requires
            old(self).wf(),
        ensures
            final(self).wf(),
            old(self).spec_same_except_project(*final(self), project_name@),
            !final(self).spec_has_project(project_name@),
            old(self).spec_has_project(project_name@) ==> r is Ok,
            !old(self).spec_has_project(project_name@) ==> (
            r matches Err(MockApiError::UnknownProject { project }) && project@ == project_name@),
    {
        let removed = self.delete_project(project_name);
        if removed {
            Ok(())
        } else {
            Err(MockApiError::UnknownProject { project: project_name.clone() })
        }
    }

    /// The metadata document of a project.
    pub fn project_meta(&self, project_name: &String) -> (r: Result<ProjectMetaInfo, MockApiError>)
        requires
            self.wf(),
        ensures
            match r {
                Ok(m) => {
                    &&& self.spec_has_project(project_name@)
                    &&& ({
                        let proj = self.spec_project(project_name@);
                        &&& m.name@ == project_name@
                        &&& m.rebuild == proj.rebuild
                        &&& m.block == proj.block
                        &&& m.repos@.len() == proj.repos@.len()
                        &&& forall|i: int|
                            0 <= i < m.repos@.len() ==> {
                                let ri = #[trigger] m.repos@[i];
                                &&& ri.name@ == proj.repos@[i].name@
                                &&& ri.arches@.len() == proj.repos@[i].arches@.len()
                                &&& forall|j: int|
                                    0 <= j < ri.arches@.len() ==> (#[trigger] ri.arches@[j])@
                                        == proj.repos@[i].arches@[j].arch@
                            }
                    })
                },
                Err(e) => e matches MockApiError::UnknownProject { project } && project@
                    == project_name@ && !self.spec_has_project(project_name@),
            },
    {
        let proj = match self.project_ref(project_name) {
            Some(p) => p,
            None => {
                return Err(MockApiError::UnknownProject { project: project_name.clone() });
            },
        };
        let mut repos: Vec<RepoMetaInfo> = Vec::new();
        let mut i: usize = 0;
        while i < proj.repos.len()
            invariant
                i <= proj.repos@.len(),
                repos@.len() == i,
                forall|i2: int|
                    0 <= i2 < i ==> {
                        let ri = #[trigger] repos@[i2];
                        &&& ri.name@ == proj.repos@[i2].name@
                        &&& ri.arches@.len() == proj.repos@[i2].arches@.len()
                        &&& forall|j: int|
                            0 <= j < ri.arches@.len() ==> (#[trigger] ri.arches@[j])@
                                == proj.repos@[i2].arches@[j].arch@
                    },
            decreases proj.repos@.len() - i,
        {
            let slot = &proj.repos[i];
            let mut arches: Vec<String> = Vec::new();
            let mut j: usize = 0;
            while j < slot.arches.len()
                invariant
                    j <= slot.arches@.len(),
                    arches@.len() == j,
                    forall|j2: int|
                        0 <= j2 < j ==> (#[trigger] arches@[j2])@ == slot.arches@[j2].arch@,
                decreases slot.arches@.len() - j,
            {
                arches.push(slot.arches[j].arch.clone());
                j = j + 1;
            }
            repos.push(RepoMetaInfo { name: slot.name.clone(), arches });
            i = i + 1;
        }
        let rebuild = proj.rebuild;
        let block = proj.block;
        Ok(ProjectMetaInfo { name: project_name.clone(), rebuild, block, repos })
    }
}

} // verus!
