//! One package: its content-addressed blob store, its append-only source and
//! metadata revision histories, and its per-label revision counters.

use vstd::prelude::*;

use crate::digest::md5_hex_of;
use crate::digest::random_md5;
use crate::digest::spec_zero_srcmd5;
use crate::digest::zero_rev_srcmd5;
use crate::errors::MockApiError;
use crate::metaxml::meta_path;
use crate::metaxml::spec_meta_bytes;
use crate::metaxml::spec_meta_path;
use crate::store::bump_vrev;
use crate::store::clone_files;
use crate::store::counter_matches;
use crate::store::entries_at;
use crate::store::entries_has;
use crate::store::entries_unique;
use crate::store::entry_path_matches;
use crate::store::lemma_entries_index;
use crate::store::lemma_store_index;
use crate::store::lemma_store_view_equiv;
use crate::store::lemma_vrevs_index;
use crate::store::store_contents;
use crate::store::store_find;
use crate::store::store_has;
use crate::store::store_put;
use crate::store::store_wf;
use crate::store::upsert_entry;
use crate::store::vrev_value;
use crate::store::vrevs_unique;
use crate::store::MockStoredFile;
use crate::store::MockVrevCounter;
use crate::store::spec_version_key;
use crate::types::clone_disabled_vec;
use crate::types::clone_entry_vec;
use crate::types::clone_linkinfo_vec;
use crate::types::clone_opt_string;
use crate::types::spec_opt_string_eq;
use crate::types::MockBranchOptions;
use crate::types::MockEntry;
use crate::types::MockLinkInfo;
use crate::types::MockLinkResolution;
use crate::types::MockPackageDisabledBuild;
use crate::types::MockPackageOptions;
use crate::types::MockRevision;
use crate::types::MockRevisionEntry;
use crate::types::MockRevisionOptions;
use crate::types::MockSourceFile;
use crate::types::MockSourceFileKey;

verus! {

/// Every entry of the list is backed by a blob in the store.
pub open spec fn entries_in_store(
    es: Seq<MockRevisionEntry>,
    files: Seq<MockStoredFile>,
) -> bool {
    forall|i: int|
        0 <= i < es.len() ==> store_has(files, (#[trigger] es[i]).path@, es[i].entry.md5@)
}

/// A well-formed source revision over a store: unique entry paths, all backed.
pub open spec fn rev_wf(r: MockRevision, files: Seq<MockStoredFile>) -> bool {
    entries_unique(r.entries@) && entries_in_store(r.entries@, files)
}

/// A well-formed metadata revision: untracked by counters, no provenance,
/// exactly the one `_meta` entry, backed by the store.
pub open spec fn meta_rev_wf(r: MockRevision, files: Seq<MockStoredFile>) -> bool {
    &&& r.vrev is None
    &&& r.linkinfo@.len() == 0
    &&& r.entries@.len() == 1
    &&& r.entries@[0].path@ == spec_meta_path()
    &&& store_has(files, spec_meta_path(), r.entries@[0].entry.md5@)
}

/// One package of a project.
#[derive(Debug)]
pub struct MockPackage {
    pub files: Vec<MockStoredFile>,
    pub revisions: Vec<MockRevision>,
    pub meta_revisions: Vec<MockRevision>,
    pub latest_vrevs: Vec<MockVrevCounter>,
    pub disabled: Vec<MockPackageDisabledBuild>,
}

impl MockPackage {
    /// The package's invariant: a well-formed store, every source revision
    /// counted and backed, at least one metadata revision, and counters that
    /// never outrun the history.
    pub open spec fn wf(self) -> bool {
        &&& store_wf(self.files@)
        &&& vrevs_unique(self.latest_vrevs@)
        &&& forall|i: int|
            0 <= i < self.revisions@.len() ==> (#[trigger] self.revisions@[i]).vrev is Some
                && rev_wf(self.revisions@[i], self.files@)
        &&& self.meta_revisions@.len() >= 1
        &&& forall|i: int|
            0 <= i < self.meta_revisions@.len() ==> meta_rev_wf(
                #[trigger] self.meta_revisions@[i],
                self.files@,
            )
        &&& forall|i: int|
            0 <= i < self.latest_vrevs@.len() ==> (#[trigger] self.latest_vrevs@[i]).vrev
                <= self.revisions@.len()
    }

    /// Whether the store holds a blob under the given path and digest.
    pub fn contains_file(&self, path: &String, md5: &String) -> (r: bool)
        ensures
            r == store_has(self.files@, path@, md5@),
    {
        let found = store_find(&self.files, path, md5);
        match found {
            Some(_) => true,
            None => false,
        }
    }

    /// The bytes stored under the given path and digest.
    pub fn file_contents<'a>(&'a self, path: &String, md5: &String) -> (r: Option<&'a Vec<u8>>)
        requires
            self.wf(),
        ensures
            r is Some <==> store_has(self.files@, path@, md5@),
            r is Some ==> r.unwrap()@ == store_contents(self.files@, path@, md5@),
    {
        let found = store_find(&self.files, path, md5);
        match found {
            Some(i) => {
                proof {
                    lemma_store_index(self.files@, path@, md5@, i as int);
                }
                Some(&self.files[i].contents)
            },
            None => None,
        }
    }

    /// Stores a blob under the digest of its bytes and returns its key.
    /// Storing the same bytes again leaves the store as it was.
    pub fn add_file(&mut self, file: MockSourceFile) -> (key: MockSourceFileKey)
        requires
            old(self).wf(),
        ensures
            final(self).wf(),
            key.path@ == file.path@,
            key.md5@ == md5_hex_of(file.contents@),
            store_has(final(self).files@, file.path@, md5_hex_of(file.contents@)),
            store_contents(final(self).files@, file.path@, md5_hex_of(file.contents@))
                == file.contents@,
            forall|p: Seq<char>, m: Seq<char>|
                #[trigger] store_has(old(self).files@, p, m) ==> store_has(final(self).files@, p, m),
            forall|p: Seq<char>, m: Seq<char>|
                #[trigger] store_has(final(self).files@, p, m) ==> store_has(old(self).files@, p, m)
                    || (p == file.path@ && m == md5_hex_of(file.contents@)),
            forall|p: Seq<char>, m: Seq<char>|
                !(p == file.path@ && m == md5_hex_of(file.contents@)) && #[trigger] store_has(
                    old(self).files@,
                    p,
                    m,
                ) ==> store_contents(final(self).files@, p, m) == store_contents(
                    old(self).files@,
                    p,
                    m,
                ),
            final(self).revisions == old(self).revisions,
            final(self).meta_revisions == old(self).meta_revisions,
            final(self).latest_vrevs == old(self).latest_vrevs,
            final(self).disabled == old(self).disabled,
    {
        let ghost old_files = self.files@;
        let (key, contents) = file.into_key_and_contents();
        let key_ret = key.clone();
        store_put(&mut self.files, key, contents);
        proof {
            assert forall|i: int| 0 <= i < self.revisions@.len() implies (
            #[trigger] self.revisions@[i]).vrev is Some && rev_wf(
                self.revisions@[i],
                self.files@,
            ) by {
                assert(rev_wf(self.revisions@[i], old_files));
                assert forall|k: int| 0 <= k < self.revisions@[i].entries@.len() implies store_has(
                    self.files@,
                    (#[trigger] self.revisions@[i].entries@[k]).path@,
                    self.revisions@[i].entries@[k].entry.md5@,
                ) by {
                    assert(store_has(
                        old_files,
                        self.revisions@[i].entries@[k].path@,
                        self.revisions@[i].entries@[k].entry.md5@,
                    ));
                }
            }
            assert forall|i: int| 0 <= i < self.meta_revisions@.len() implies meta_rev_wf(
                #[trigger] self.meta_revisions@[i],
                self.files@,
            ) by {
                assert(meta_rev_wf(self.meta_revisions@[i], old_files));
                assert(store_has(
                    old_files,
                    spec_meta_path(),
                    self.meta_revisions@[i].entries@[0].entry.md5@,
                ));
            }
        }
        key_ret
    }

    /// The latest source revision, if any was ever committed.
    pub fn latest_revision<'a>(&'a self) -> (r: Option<&'a MockRevision>)
        ensures
            r is Some <==> self.revisions@.len() > 0,
            r is Some ==> *r.unwrap() == self.revisions@.last(),
    {
        if self.revisions.len() > 0 {
            Some(&self.revisions[self.revisions.len() - 1])
        } else {
            None
        }
    }

    /// Appends a source revision holding the given entries. The revision is
    /// indexed one past the previous history, steps its version label's
    /// counter by exactly one, and inherits the previous revision's
    /// provenance links. Fails with `DanglingReference`, changing nothing,
    /// exactly when some entry is not backed by the content store.
    pub fn add_revision(&mut self, options: MockRevisionOptions, entries: Vec<MockRevisionEntry>)
        -> (r: Result<(), MockApiError>)
        requires
            old(self).wf(),
            entries_unique(entries@),
            old(self).revisions@.len() < usize::MAX,
        ensures
            final(self).wf(),
            entries_in_store(entries@, old(self).files@) ==> r is Ok,
            r is Ok ==> entries_in_store(entries@, old(self).files@),
            r matches Err(e) ==> e is DanglingReference && *final(self) == *old(self),
            r is Ok ==> spec_revision_appended(*old(self), *final(self), options, entries@),
    {
        let ghost old_self = *old(self);
        let mut k: usize = 0;
        while k < entries.len()
            invariant
                k <= entries@.len(),
                forall|j: int|
                    0 <= j < k ==> store_has(
                        self.files@,
                        (#[trigger] entries@[j]).path@,
                        entries@[j].entry.md5@,
                    ),
                *self == *old(self),
                old(self).wf(),
            decreases entries@.len() - k,
        {
            if !self.contains_file(&entries[k].path, &entries[k].entry.md5) {
                return Err(MockApiError::DanglingReference);
            }
            k = k + 1;
        }
        let linkinfo: Vec<MockLinkInfo> = if self.revisions.len() > 0 {
            clone_linkinfo_vec(&self.revisions[self.revisions.len() - 1].linkinfo)
        } else {
            Vec::new()
        };
        proof {
            let key = spec_version_key(options.version);
            if crate::store::vrevs_has(self.latest_vrevs@, key) {
                let i = crate::store::vrevs_index(self.latest_vrevs@, key);
                assert(0 <= i < self.latest_vrevs@.len() && counter_matches(
                    self.latest_vrevs@[i],
                    key,
                ));
                assert(self.latest_vrevs@[i].vrev <= self.revisions@.len());
            }
        }
        let vrev = bump_vrev(&mut self.latest_vrevs, &options.version);
        let rev = MockRevision { vrev: Some(vrev), options, linkinfo, entries };
        self.revisions.push(rev);
        proof {
            assert(final(self).revisions@.drop_last() =~= old_self.revisions@);
            assert forall|i: int| 0 <= i < self.latest_vrevs@.len() implies (
            #[trigger] self.latest_vrevs@[i]).vrev <= self.revisions@.len() by {
                if self.latest_vrevs@[i].vrev != vrev {
                    assert(old_self.latest_vrevs@.contains(self.latest_vrevs@[i]));
                    let j = choose|j: int|
                        0 <= j < old_self.latest_vrevs@.len() && old_self.latest_vrevs@[j]
                            == self.latest_vrevs@[i];
                    assert(old_self.latest_vrevs@[j].vrev <= old_self.revisions@.len());
                }
            }
            assert forall|i: int| 0 <= i < self.revisions@.len() implies (
            #[trigger] self.revisions@[i]).vrev is Some && rev_wf(
                self.revisions@[i],
                self.files@,
            ) by {
                if i < old_self.revisions@.len() {
                    assert(old_self.revisions@[i].vrev is Some && rev_wf(
                        old_self.revisions@[i],
                        old_self.files@,
                    ));
                    assert(self.revisions@[i] == old_self.revisions@[i]);
                }
            }
        }
        Ok(())
    }

    /// A fresh package: no source revisions yet, one metadata revision whose
    /// single entry is the rendered `_meta` blob, and that blob alone in the
    /// content store.
    pub fn new_with_metadata(
        project_name: &String,
        package_name: &String,
        options: MockPackageOptions,
    ) -> (p: MockPackage)
        ensures
            p.wf(),
            spec_fresh_package(p, project_name@, package_name@, options),
    {
        let meta_file = MockSourceFile::new_metadata(project_name, package_name, &options.disabled);
        let (meta_key, meta_contents) = meta_file.into_key_and_contents();
        let meta_entry = MockEntry::from_key(&meta_key, options.time);
        let mut files: Vec<MockStoredFile> = Vec::new();
        store_put(&mut files, meta_key, meta_contents);
        let mut meta_entries: Vec<MockRevisionEntry> = Vec::new();
        meta_entries.push(MockRevisionEntry { path: meta_path(), entry: meta_entry });
        let meta_rev = MockRevision {
            vrev: None,
            options: MockRevisionOptions {
                srcmd5: options.meta_srcmd5,
                version: None,
                time: options.time,
                user: options.user,
                comment: None,
            },
            linkinfo: Vec::new(),
            entries: meta_entries,
        };
        let mut meta_revisions: Vec<MockRevision> = Vec::new();
        meta_revisions.push(meta_rev);
        MockPackage {
            files,
            revisions: Vec::new(),
            meta_revisions,
            latest_vrevs: Vec::new(),
            disabled: options.disabled,
        }
    }
}

/// How a package changes when a source revision carrying the given options
/// and entries is appended: the history grows by exactly that revision, the
/// version label's counter steps by one, other counters stand, provenance is
/// inherited, and everything else is untouched.
pub open spec fn spec_revision_appended(
    oldp: MockPackage,
    newp: MockPackage,
    options: MockRevisionOptions,
    entries: Seq<MockRevisionEntry>,
) -> bool {
    &&& newp.revisions@.len() == oldp.revisions@.len() + 1
    &&& newp.revisions@.drop_last() == oldp.revisions@
    &&& ({
        let new_rev = newp.revisions@.last();
        let key = spec_version_key(options.version);
        &&& new_rev.vrev == Some((vrev_value(oldp.latest_vrevs@, key) + 1) as u64)
        &&& new_rev.options == options
        &&& new_rev.entries@ == entries
        &&& new_rev.linkinfo@ == if oldp.revisions@.len() > 0 {
            oldp.revisions@.last().linkinfo@
        } else {
            Seq::<MockLinkInfo>::empty()
        }
    })
    &&& vrev_value(newp.latest_vrevs@, spec_version_key(options.version)) == vrev_value(
        oldp.latest_vrevs@,
        spec_version_key(options.version),
    ) + 1
    &&& forall|k: Option<Seq<char>>|
        k != spec_version_key(options.version) ==> #[trigger] vrev_value(newp.latest_vrevs@, k)
            == vrev_value(oldp.latest_vrevs@, k)
    &&& newp.files == oldp.files
    &&& newp.meta_revisions == oldp.meta_revisions
    &&& newp.disabled == oldp.disabled
}

/// What creating a package builds: no source revisions, one metadata
/// revision whose single entry is the rendered `_meta` blob, that blob alone
/// in the content store, and no counters yet.
pub open spec fn spec_fresh_package(
    p: MockPackage,
    project_name: Seq<char>,
    package_name: Seq<char>,
    options: MockPackageOptions,
) -> bool {
    let meta_md5 = md5_hex_of(spec_meta_bytes(project_name, package_name, options.disabled@));
    &&& p.revisions@.len() == 0
    &&& p.meta_revisions@.len() == 1
    &&& ({
        let mr = p.meta_revisions@[0];
        &&& mr.vrev is None
        &&& mr.options.srcmd5@ == options.meta_srcmd5@
        &&& mr.options.version is None
        &&& mr.options.time == options.time
        &&& mr.options.user@ == options.user@
        &&& mr.options.comment is None
        &&& mr.linkinfo@.len() == 0
        &&& mr.entries@.len() == 1
        &&& mr.entries@[0].path@ == spec_meta_path()
        &&& mr.entries@[0].entry.md5@ == meta_md5
        &&& mr.entries@[0].entry.mtime == options.time
    })
    &&& store_has(p.files@, spec_meta_path(), meta_md5)
    &&& store_contents(p.files@, spec_meta_path(), meta_md5) == spec_meta_bytes(
        project_name,
        package_name,
        options.disabled@,
    )
    &&& p.latest_vrevs@.len() == 0
    &&& p.disabled@ == options.disabled@
}

/// The origin argument of a branch, as a value.
pub open spec fn spec_deref_origin(origin: Option<&MockPackage>) -> Option<MockPackage> {
    match origin {
        Some(o) => Some(*o),
        None => None,
    }
}

/// The latest revision the branch copies from, if the origin package exists
/// and has one.
pub open spec fn spec_origin_latest(origin: Option<MockPackage>) -> Option<MockRevision> {
    match origin {
        Some(o) => if o.revisions@.len() > 0 {
            Some(o.revisions@.last())
        } else {
            None
        },
        None => None,
    }
}

/// The entries a branch copies: the origin's latest, or none.
pub open spec fn spec_origin_entries(origin: Option<MockPackage>) -> Seq<MockRevisionEntry> {
    match spec_origin_latest(origin) {
        Some(r) => r.entries@,
        None => Seq::<MockRevisionEntry>::empty(),
    }
}

/// The digest a branch links back to: the origin's latest, or the digest of
/// the zero revision.
pub open spec fn spec_origin_srcmd5(origin: Option<MockPackage>) -> Seq<char> {
    match spec_origin_latest(origin) {
        Some(r) => r.options.srcmd5@,
        None => spec_zero_srcmd5(),
    }
}

/// The blobs a branch copies: the origin's store, or none.
pub open spec fn spec_origin_files(origin: Option<MockPackage>) -> Seq<MockStoredFile> {
    match origin {
        Some(o) => if o.revisions@.len() > 0 {
            o.files@
        } else {
            Seq::<MockStoredFile>::empty()
        },
        None => Seq::<MockStoredFile>::empty(),
    }
}

/// The disabled builds a branch inherits.
pub open spec fn spec_origin_disabled(
    origin: Option<MockPackage>,
) -> Seq<MockPackageDisabledBuild> {
    match origin {
        Some(o) => if o.revisions@.len() > 0 {
            o.disabled@
        } else {
            Seq::<MockPackageDisabledBuild>::empty()
        },
        None => Seq::<MockPackageDisabledBuild>::empty(),
    }
}

/// What branching builds: the target package's one source revision carries
/// the origin's latest entries plus the fresh `_meta` blob, a provenance
/// link back to the origin revision, and a version counter reset to one;
/// its store holds the origin's blobs plus that blob; its one metadata
/// revision is fresh.
pub open spec fn spec_branched_package(
    p: MockPackage,
    origin_project_name: Seq<char>,
    origin_package_name: Seq<char>,
    origin: Option<MockPackage>,
    branched_project_name: Seq<char>,
    branched_package_name: Seq<char>,
    options: MockBranchOptions,
) -> bool {
    let meta_md5 = md5_hex_of(
        spec_meta_bytes(
            branched_project_name,
            branched_package_name,
            spec_origin_disabled(origin),
        ),
    );
    &&& p.disabled@ == spec_origin_disabled(origin)
    &&& p.revisions@.len() == 1
    &&& ({
        let rev = p.revisions@[0];
        &&& rev.vrev == Some(1u64)
        &&& rev.options.srcmd5@ == options.srcmd5@
        &&& rev.options.version is None
        &&& rev.options.time == options.time
        &&& rev.options.user@ == options.user@
        &&& spec_opt_string_eq(rev.options.comment, options.comment)
        &&& rev.linkinfo@.len() == 1
        &&& ({
            let li = rev.linkinfo@[0];
            &&& li.project@ == origin_project_name
            &&& li.package@ == origin_package_name
            &&& li.baserev@ == spec_origin_srcmd5(origin)
            &&& li.srcmd5@ == spec_origin_srcmd5(origin)
            &&& li.lsrcmd5@ == options.srcmd5@
            &&& (li.link_resolution matches MockLinkResolution::Available { xsrcmd5 } && xsrcmd5@
                == options.xsrcmd5@)
            &&& li.missingok == options.missingok
        })
        &&& entries_unique(rev.entries@)
        &&& entries_has(rev.entries@, spec_meta_path())
        &&& entries_at(rev.entries@, spec_meta_path()).md5@ == meta_md5
        &&& entries_at(rev.entries@, spec_meta_path()).mtime == options.time
        &&& forall|q: Seq<char>|
            q != spec_meta_path() ==> #[trigger] entries_has(rev.entries@, q) == entries_has(
                spec_origin_entries(origin),
                q,
            )
        &&& forall|q: Seq<char>|
            q != spec_meta_path() && #[trigger] entries_has(spec_origin_entries(origin), q)
                ==> entries_at(rev.entries@, q) == entries_at(spec_origin_entries(origin), q)
    })
    &&& p.meta_revisions@.len() == 1
    &&& ({
        let mr = p.meta_revisions@[0];
        &&& mr.vrev is None
        &&& mr.options.srcmd5@.len() == 32
        &&& mr.options.version is None
        &&& mr.options.time == options.time
        &&& mr.options.user@ == options.user@
        &&& spec_opt_string_eq(mr.options.comment, options.comment)
        &&& mr.linkinfo@.len() == 0
    })
    &&& vrev_value(p.latest_vrevs@, None) == 1
    &&& store_has(p.files@, spec_meta_path(), meta_md5)
    &&& forall|q: Seq<char>, m: Seq<char>|
        #[trigger] store_has(spec_origin_files(origin), q, m) ==> store_has(p.files@, q, m)
    &&& forall|q: Seq<char>, m: Seq<char>|
        !(q == spec_meta_path() && m == md5_hex_of(
            spec_meta_bytes(
                branched_project_name,
                branched_package_name,
                spec_origin_disabled(origin),
            ),
        )) && #[trigger] store_has(spec_origin_files(origin), q, m) ==> store_contents(
            p.files@,
            q,
            m,
        ) == store_contents(spec_origin_files(origin), q, m)
}

impl MockPackage {
    /// The package a branch creates: its first and only source revision
    /// carries the origin's latest entries plus the fresh `_meta` blob, a
    /// provenance link back to the origin revision, and a version counter
    /// reset to one; its content store holds the origin's blobs plus that
    /// blob.
    pub fn new_branched(
        origin_project_name: String,
        origin_package_name: String,
        origin: Option<&MockPackage>,
        branched_project_name: &String,
        branched_package_name: &String,
        options: MockBranchOptions,
    ) -> (p: MockPackage)
        requires
            origin matches Some(o) ==> o.wf(),
        ensures
            p.wf(),
            spec_branched_package(
                p,
                origin_project_name@,
                origin_package_name@,
                spec_deref_origin(origin),
                branched_project_name@,
                branched_package_name@,
                options,
            ),
    {
        let ghost origin_files = spec_origin_files(spec_deref_origin(origin));
        let (mut files, mut entries, origin_srcmd5, disabled) = match origin {
            Some(o) => {
                if o.revisions.len() > 0 {
                    let last = &o.revisions[o.revisions.len() - 1];
                    (
                        clone_files(&o.files),
                        clone_entry_vec(&last.entries),
                        last.options.srcmd5.clone(),
                        clone_disabled_vec(&o.disabled),
                    )
                } else {
                    let v1: Vec<MockStoredFile> = Vec::new();
                    let v2: Vec<MockRevisionEntry> = Vec::new();
                    let v3: Vec<MockPackageDisabledBuild> = Vec::new();
                    (v1, v2, zero_rev_srcmd5(), v3)
                }
            },
            None => {
                let v1: Vec<MockStoredFile> = Vec::new();
                let v2: Vec<MockRevisionEntry> = Vec::new();
                let v3: Vec<MockPackageDisabledBuild> = Vec::new();
                (v1, v2, zero_rev_srcmd5(), v3)
            },
        };
        proof {
            lemma_store_view_equiv(origin_files, files@);
            assert(store_wf(files@));
            assert(entries@ == spec_origin_entries(spec_deref_origin(origin)));
            assert(entries_unique(entries@));
            assert forall|k: int| 0 <= k < entries@.len() implies store_has(
                files@,
                (#[trigger] entries@[k]).path@,
                entries@[k].entry.md5@,
            ) by {
                assert(store_has(origin_files, entries@[k].path@, entries@[k].entry.md5@));
            }
        }
        let ghost files_before_meta = files@;
        let meta_file = MockSourceFile::new_metadata(
            branched_project_name,
            branched_package_name,
            &disabled,
        );
        let (meta_key, meta_contents) = meta_file.into_key_and_contents();
        let meta_entry = MockEntry::from_key(&meta_key, options.time);
        store_put(&mut files, meta_key, meta_contents);
        let ghost old_entries = entries@;
        upsert_entry(
            &mut entries,
            MockRevisionEntry { path: meta_path(), entry: meta_entry.clone() },
        );
        proof {
            assert forall|k: int| 0 <= k < entries@.len() implies store_has(
                files@,
                (#[trigger] entries@[k]).path@,
                entries@[k].entry.md5@,
            ) by {
                let e = entries@[k];
                if e.path@ == spec_meta_path() {
                    lemma_entries_index(entries@, spec_meta_path(), k);
                    assert(e.entry == entries_at(entries@, spec_meta_path()));
                } else {
                    lemma_entries_index(entries@, e.path@, k);
                    assert(entries_has(old_entries, e.path@));
                    let j = crate::store::entries_index(old_entries, e.path@);
                    assert(entry_path_matches(old_entries[j], e.path@));
                    lemma_entries_index(old_entries, e.path@, j);
                    assert(e.entry == old_entries[j].entry);
                    assert(store_has(
                        files_before_meta,
                        old_entries[j].path@,
                        old_entries[j].entry.md5@,
                    ));
                }
            }
        }
        let linkinfo = MockLinkInfo {
            project: origin_project_name,
            package: origin_package_name,
            baserev: origin_srcmd5.clone(),
            srcmd5: origin_srcmd5,
            lsrcmd5: options.srcmd5.clone(),
            link_resolution: MockLinkResolution::Available { xsrcmd5: options.xsrcmd5 },
            missingok: options.missingok,
        };
        let mut linkinfos: Vec<MockLinkInfo> = Vec::new();
        linkinfos.push(linkinfo);
        let rev = MockRevision {
            vrev: Some(1),
            options: MockRevisionOptions {
                srcmd5: options.srcmd5,
                version: None,
                time: options.time,
                user: options.user.clone(),
                comment: clone_opt_string(&options.comment),
            },
            linkinfo: linkinfos,
            entries,
        };
        let mut revisions: Vec<MockRevision> = Vec::new();
        revisions.push(rev);
        let mut meta_entries: Vec<MockRevisionEntry> = Vec::new();
        meta_entries.push(MockRevisionEntry { path: meta_path(), entry: meta_entry });
        let meta_rev = MockRevision {
            vrev: None,
            options: MockRevisionOptions {
                srcmd5: random_md5(),
                version: None,
                time: options.time,
                user: options.user,
                comment: options.comment,
            },
            linkinfo: Vec::new(),
            entries: meta_entries,
        };
        let mut meta_revisions: Vec<MockRevision> = Vec::new();
        meta_revisions.push(meta_rev);
        let mut latest_vrevs: Vec<MockVrevCounter> = Vec::new();
        latest_vrevs.push(MockVrevCounter { version: None, vrev: 1 });
        let p = MockPackage { files, revisions, meta_revisions, latest_vrevs, disabled };
        proof {
            lemma_vrevs_index(p.latest_vrevs@, None, 0);
        }
        p
    }

    /// Writes a new metadata blob and appends a metadata revision pointing
    /// at it. The source history, its counters and the recorded disabled
    /// builds are untouched; the store only grows.
    pub fn set_metadata(
        &mut self,
        project_name: &String,
        package_name: &String,
        options: MockPackageOptions,
    )
        requires
            old(self).wf(),
        ensures
            final(self).wf(),
            final(self).revisions == old(self).revisions,
            final(self).latest_vrevs == old(self).latest_vrevs,
            final(self).disabled == old(self).disabled,
            final(self).meta_revisions@.len() == old(self).meta_revisions@.len() + 1,
            final(self).meta_revisions@.drop_last() == old(self).meta_revisions@,
            ({
                let mr = final(self).meta_revisions@.last();
                &&& mr.vrev is None
                &&& mr.options.srcmd5@ == options.meta_srcmd5@
                &&& mr.options.version is None
                &&& mr.options.time == options.time
                &&& mr.options.user@ == options.user@
                &&& mr.options.comment is None
                &&& mr.linkinfo@.len() == 0
                &&& mr.entries@.len() == 1
                &&& mr.entries@[0].path@ == spec_meta_path()
                &&& mr.entries@[0].entry.md5@ == md5_hex_of(
                    spec_meta_bytes(project_name@, package_name@, options.disabled@),
                )
                &&& mr.entries@[0].entry.mtime == options.time
            }),
            store_has(
                final(self).files@,
                spec_meta_path(),
                md5_hex_of(spec_meta_bytes(project_name@, package_name@, options.disabled@)),
            ),
            store_contents(
                final(self).files@,
                spec_meta_path(),
                md5_hex_of(spec_meta_bytes(project_name@, package_name@, options.disabled@)),
            ) == spec_meta_bytes(project_name@, package_name@, options.disabled@),
            forall|p: Seq<char>, m: Seq<char>|
                #[trigger] store_has(old(self).files@, p, m) ==> store_has(final(self).files@, p, m),
    {
        let ghost old_files = self.files@;
        let meta_file = MockSourceFile::new_metadata(project_name, package_name, &options.disabled);
        let (meta_key, meta_contents) = meta_file.into_key_and_contents();
        let meta_entry = MockEntry::from_key(&meta_key, options.time);
        store_put(&mut self.files, meta_key, meta_contents);
        let mut meta_entries: Vec<MockRevisionEntry> = Vec::new();
        meta_entries.push(MockRevisionEntry { path: meta_path(), entry: meta_entry });
        let meta_rev = MockRevision {
            vrev: None,
            options: MockRevisionOptions {
                srcmd5: options.meta_srcmd5,
                version: None,
                time: options.time,
                user: options.user,
                comment: None,
            },
            linkinfo: Vec::new(),
            entries: meta_entries,
        };
        self.meta_revisions.push(meta_rev);
        proof {
            assert(final(self).meta_revisions@.drop_last() =~= old(self).meta_revisions@);
            assert forall|i: int| 0 <= i < self.revisions@.len() implies (
            #[trigger] self.revisions@[i]).vrev is Some && rev_wf(
                self.revisions@[i],
                self.files@,
            ) by {
                assert(rev_wf(self.revisions@[i], old_files));
                assert forall|k: int| 0 <= k < self.revisions@[i].entries@.len() implies store_has(
                    self.files@,
                    (#[trigger] self.revisions@[i].entries@[k]).path@,
                    self.revisions@[i].entries@[k].entry.md5@,
                ) by {
                    assert(store_has(
                        old_files,
                        self.revisions@[i].entries@[k].path@,
                        self.revisions@[i].entries@[k].entry.md5@,
                    ));
                }
            }
            assert forall|i: int| 0 <= i < self.meta_revisions@.len() implies meta_rev_wf(
                #[trigger] self.meta_revisions@[i],
                self.files@,
            ) by {
                if i < old(self).meta_revisions@.len() {
                    assert(meta_rev_wf(old(self).meta_revisions@[i], old_files));
                    assert(store_has(
                        old_files,
                        spec_meta_path(),
                        old(self).meta_revisions@[i].entries@[0].entry.md5@,
                    ));
                }
            }
        }
    }
}

} // verus!
