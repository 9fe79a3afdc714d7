//! The keyed collections a package is made of: the content-addressed blob
//! store, the path-keyed entry lists held by revisions, and the per-label
//! version-revision counters. Each is a vector with unique keys, and each
//! lookup is specified through the predicates defined here.

use vstd::prelude::*;

use crate::digest::md5_hex_of;
use crate::types::clone_opt_string;
use crate::types::opt_string_eq;
use crate::types::spec_opt_string_eq;
use crate::types::MockEntry;
use crate::types::MockRevisionEntry;
use crate::types::MockSourceFileKey;

verus! {

// ---------------------------------------------------------------------------
// Content store: blobs keyed by (path, digest).
// ---------------------------------------------------------------------------

/// One blob of a package's content store.
#[derive(Debug)]
pub struct MockStoredFile {
    pub key: MockSourceFileKey,
    pub contents: Vec<u8>,
}

/// Whether a stored blob sits under the given path and digest.
pub open spec fn file_matches(f: MockStoredFile, path: Seq<char>, md5: Seq<char>) -> bool {
    f.key.path@ == path && f.key.md5@ == md5
}

/// Whether the store holds a blob under the given path and digest.
pub open spec fn store_has(files: Seq<MockStoredFile>, path: Seq<char>, md5: Seq<char>) -> bool {
    exists|i: int| 0 <= i < files.len() && file_matches(files[i], path, md5)
}

/// The position of the blob under the given path and digest.
pub open spec fn store_index(files: Seq<MockStoredFile>, path: Seq<char>, md5: Seq<char>) -> int {
    choose|i: int| 0 <= i < files.len() && file_matches(files[i], path, md5)
}

/// The bytes stored under the given path and digest.
pub open spec fn store_contents(
    files: Seq<MockStoredFile>,
    path: Seq<char>,
    md5: Seq<char>,
) -> Seq<u8> {
    files[store_index(files, path, md5)].contents@
}

/// No two blobs share a path and digest.
pub open spec fn store_unique(files: Seq<MockStoredFile>) -> bool {
    forall|i: int, j: int|
        0 <= i < j < files.len() ==> !(files[i].key.path@ == files[j].key.path@
            && files[i].key.md5@ == files[j].key.md5@)
}

/// Every blob sits under the digest of its own bytes.
pub open spec fn store_addressed(files: Seq<MockStoredFile>) -> bool {
    forall|i: int|
        0 <= i < files.len() ==> (#[trigger] files[i]).key.md5@ == md5_hex_of(files[i].contents@)
}

/// A well-formed content store.
pub open spec fn store_wf(files: Seq<MockStoredFile>) -> bool {
    store_unique(files) && store_addressed(files)
}

/// In a store with unique keys, a matching position is the position every
/// lookup resolves to.
pub proof fn lemma_store_index(
    files: Seq<MockStoredFile>,
    path: Seq<char>,
    md5: Seq<char>,
    i: int,
)
    requires
        store_unique(files),
        0 <= i < files.len(),
        file_matches(files[i], path, md5),
    ensures
        store_has(files, path, md5),
        store_index(files, path, md5) == i,
{
    assert(store_has(files, path, md5));
    let j = store_index(files, path, md5);
    assert(0 <= j < files.len() && file_matches(files[j], path, md5));
    if i < j {
        assert(false);
    } else if j < i {
        assert(false);
    }
}

/// Two stores whose blobs agree position by position resolve every lookup
/// alike.
pub proof fn lemma_store_view_equiv(a: Seq<MockStoredFile>, b: Seq<MockStoredFile>)
    requires
        a.len() == b.len(),
        forall|i: int|
            0 <= i < a.len() ==> (#[trigger] a[i]).key.path@ == b[i].key.path@
                && a[i].key.md5@ == b[i].key.md5@ && a[i].contents@ == b[i].contents@,
    ensures
        forall|p: Seq<char>, m: Seq<char>| store_has(a, p, m) == store_has(b, p, m),
        store_unique(a) ==> forall|p: Seq<char>, m: Seq<char>|
            #[trigger] store_has(a, p, m) ==> store_contents(a, p, m) == store_contents(b, p, m),
        store_unique(a) == store_unique(b),
        store_addressed(a) == store_addressed(b),
{
    assert forall|p: Seq<char>, m: Seq<char>| store_has(a, p, m) == store_has(b, p, m) by {
        if store_has(a, p, m) {
            let i = store_index(a, p, m);
            assert(file_matches(b[i], p, m));
            assert(store_has(b, p, m));
        }
        if store_has(b, p, m) {
            let i = store_index(b, p, m);
            assert(file_matches(a[i], p, m));
            assert(store_has(a, p, m));
        }
    }
    if store_unique(a) {
        assert forall|i: int, j: int| 0 <= i < j < b.len() implies !(b[i].key.path@
            == b[j].key.path@ && b[i].key.md5@ == b[j].key.md5@) by {
            assert(a[i].key.path@ == b[i].key.path@);
            assert(a[j].key.path@ == b[j].key.path@);
        }
        assert forall|p: Seq<char>, m: Seq<char>| #[trigger] store_has(a, p, m) implies
            store_contents(a, p, m) == store_contents(b, p, m) by {
            let i = store_index(a, p, m);
            assert(0 <= i < a.len() && file_matches(a[i], p, m));
            assert(file_matches(b[i], p, m));
            lemma_store_index(b, p, m, i);
        }
    }
    if store_unique(b) {
        assert forall|i: int, j: int| 0 <= i < j < a.len() implies !(a[i].key.path@
            == a[j].key.path@ && a[i].key.md5@ == a[j].key.md5@) by {
            assert(b[i].key.path@ == a[i].key.path@);
            assert(b[j].key.path@ == a[j].key.path@);
        }
    }
    if store_addressed(a) {
        assert forall|i: int| 0 <= i < b.len() implies (#[trigger] b[i]).key.md5@ == md5_hex_of(
            b[i].contents@,
        ) by {
            assert(a[i].key.md5@ == md5_hex_of(a[i].contents@));
        }
    }
    if store_addressed(b) {
        assert forall|i: int| 0 <= i < a.len() implies (#[trigger] a[i]).key.md5@ == md5_hex_of(
            a[i].contents@,
        ) by {
            assert(b[i].key.md5@ == md5_hex_of(b[i].contents@));
        }
    }
}

/// Finds the position of the blob under the given path and digest.
pub fn store_find(files: &Vec<MockStoredFile>, path: &String, md5: &String) -> (r: Option<usize>)
    ensures
        match r {
            Some(i) => i < files@.len() && file_matches(files@[i as int], path@, md5@),
            None => !store_has(files@, path@, md5@),
        },
{
    let mut i: usize = 0;
    while i < files.len()
        invariant
            i <= files@.len(),
            forall|j: int| 0 <= j < i ==> !file_matches(files@[j], path@, md5@),
        decreases files@.len() - i,
    {
        if files[i].key.path == *path && files[i].key.md5 == *md5 {
            return Some(i);
        }
        i = i + 1;
    }
    None
}

/// Inserts a blob, replacing any blob already under the same key.
pub fn store_put(files: &mut Vec<MockStoredFile>, key: MockSourceFileKey, contents: Vec<u8>)
    requires
        store_wf(old(files)@),
        key.md5@ == md5_hex_of(contents@),
    ensures
        store_wf(final(files)@),
        store_has(final(files)@, key.path@, key.md5@),
        store_contents(final(files)@, key.path@, key.md5@) == contents@,
        forall|p: Seq<char>, m: Seq<char>|
            #[trigger] store_has(old(files)@, p, m) ==> store_has(final(files)@, p, m),
        forall|p: Seq<char>, m: Seq<char>|
            #[trigger] store_has(final(files)@, p, m) ==> store_has(old(files)@, p, m) || (p
                == key.path@ && m == key.md5@),
        forall|p: Seq<char>, m: Seq<char>|
            !(p == key.path@ && m == key.md5@) && #[trigger] store_has(old(files)@, p, m)
                ==> store_contents(final(files)@, p, m) == store_contents(old(files)@, p, m),
{
    let ghost old_files = files@;
    let found = store_find(files, &key.path, &key.md5);
    match found {
        Some(i) => {
            let slot = MockStoredFile { key, contents };
            files[i] = slot;
            proof {
                let nf = files@;
                assert(nf =~= old_files.update(i as int, nf[i as int]));
                assert forall|k: int| 0 <= k < nf.len() implies (#[trigger] nf[k]).key.path@
                    == old_files[k].key.path@ && nf[k].key.md5@ == old_files[k].key.md5@ by {}
                assert forall|i2: int, j2: int| 0 <= i2 < j2 < nf.len() implies !(nf[i2].key.path@
                    == nf[j2].key.path@ && nf[i2].key.md5@ == nf[j2].key.md5@) by {
                    assert(!(old_files[i2].key.path@ == old_files[j2].key.path@
                        && old_files[i2].key.md5@ == old_files[j2].key.md5@));
                }
                assert(store_wf(nf));
                lemma_store_index(nf, nf[i as int].key.path@, nf[i as int].key.md5@, i as int);
                assert(store_contents(nf, nf[i as int].key.path@, nf[i as int].key.md5@)
                    == nf[i as int].contents@);
                assert forall|p: Seq<char>, m: Seq<char>| #[trigger] store_has(old_files, p, m)
                    implies store_has(nf, p, m) by {
                    let j = store_index(old_files, p, m);
                    assert(file_matches(nf[j], p, m));
                }
                assert forall|p: Seq<char>, m: Seq<char>| #[trigger] store_has(nf, p, m) implies
                    store_has(old_files, p, m) by {
                    let j = store_index(nf, p, m);
                    assert(file_matches(old_files[j], p, m));
                }
                assert forall|p: Seq<char>, m: Seq<char>|
                    !(p == nf[i as int].key.path@ && m == nf[i as int].key.md5@) && #[trigger]
                    store_has(old_files, p, m) implies store_contents(nf, p, m) == store_contents(
                    old_files,
                    p,
                    m,
                ) by {
                    let j = store_index(old_files, p, m);
                    assert(0 <= j < old_files.len() && file_matches(old_files[j], p, m));
                    assert(j != i);
                    assert(file_matches(nf[j], p, m));
                    lemma_store_index(nf, p, m, j);
                    lemma_store_index(old_files, p, m, j);
                }
            }
        },
        None => {
            let slot = MockStoredFile { key, contents };
            files.push(slot);
            proof {
                let nf = files@;
                let n = old_files.len() as int;
                assert(nf.len() == n + 1);
                assert forall|i2: int, j2: int| 0 <= i2 < j2 < nf.len() implies !(nf[i2].key.path@
                    == nf[j2].key.path@ && nf[i2].key.md5@ == nf[j2].key.md5@) by {
                    if j2 < n {
                        assert(!(old_files[i2].key.path@ == old_files[j2].key.path@
                            && old_files[i2].key.md5@ == old_files[j2].key.md5@));
                    } else {
                        assert(!file_matches(old_files[i2], nf[n].key.path@, nf[n].key.md5@));
                    }
                }
                assert(store_wf(nf));
                lemma_store_index(nf, nf[n].key.path@, nf[n].key.md5@, n);
                assert forall|p: Seq<char>, m: Seq<char>| #[trigger] store_has(old_files, p, m)
                    implies store_has(nf, p, m) by {
                    let j = store_index(old_files, p, m);
                    assert(file_matches(nf[j], p, m));
                }
                assert forall|p: Seq<char>, m: Seq<char>| #[trigger] store_has(nf, p, m) implies
                    store_has(old_files, p, m) || (p == nf[n].key.path@ && m == nf[n].key.md5@)
                    by {
                    let j = store_index(nf, p, m);
                    if j < n {
                        assert(file_matches(old_files[j], p, m));
                    }
                }
                assert forall|p: Seq<char>, m: Seq<char>|
                    !(p == nf[n].key.path@ && m == nf[n].key.md5@) && #[trigger] store_has(
                    old_files,
                    p,
                    m,
                ) implies store_contents(nf, p, m) == store_contents(old_files, p, m) by {
                    let j = store_index(old_files, p, m);
                    assert(file_matches(nf[j], p, m));
                    lemma_store_index(nf, p, m, j);
                    lemma_store_index(old_files, p, m, j);
                }
            }
        },
    }
}

/// Copies a content store blob for blob.
pub fn clone_files(v: &Vec<MockStoredFile>) -> (r: Vec<MockStoredFile>)
    ensures
        r@.len() == v@.len(),
        forall|i: int|
            0 <= i < v@.len() ==> (#[trigger] r@[i]).key.path@ == v@[i].key.path@ && r@[i].key.md5@
                == v@[i].key.md5@ && r@[i].contents@ == v@[i].contents@,
{
    let mut r: Vec<MockStoredFile> = Vec::new();
    let mut i: usize = 0;
    while i < v.len()
        invariant
            i <= v@.len(),
            r@.len() == i,
            forall|j: int|
                0 <= j < i ==> (#[trigger] r@[j]).key.path@ == v@[j].key.path@ && r@[j].key.md5@
                    == v@[j].key.md5@ && r@[j].contents@ == v@[j].contents@,
        decreases v@.len() - i,
    {
        let slot = MockStoredFile {
            key: v[i].key.clone(),
            contents: crate::types::clone_bytes(&v[i].contents),
        };
        r.push(slot);
        i = i + 1;
    }
    r
}

// ---------------------------------------------------------------------------
// Entry lists: a revision's entries, keyed by path.
// ---------------------------------------------------------------------------

/// Whether an entry sits under the given path.
pub open spec fn entry_path_matches(e: MockRevisionEntry, path: Seq<char>) -> bool {
    e.path@ == path
}

/// Whether the list holds an entry under the given path.
pub open spec fn entries_has(es: Seq<MockRevisionEntry>, path: Seq<char>) -> bool {
    exists|i: int| 0 <= i < es.len() && entry_path_matches(es[i], path)
}

/// The position of the entry under the given path.
pub open spec fn entries_index(es: Seq<MockRevisionEntry>, path: Seq<char>) -> int {
    choose|i: int| 0 <= i < es.len() && entry_path_matches(es[i], path)
}

/// The entry under the given path.
pub open spec fn entries_at(es: Seq<MockRevisionEntry>, path: Seq<char>) -> MockEntry {
    es[entries_index(es, path)].entry
}

/// No two entries share a path.
pub open spec fn entries_unique(es: Seq<MockRevisionEntry>) -> bool {
    forall|i: int, j: int| 0 <= i < j < es.len() ==> es[i].path@ != es[j].path@
}

/// In a list with unique paths, a matching position is the position every
/// lookup resolves to.
pub proof fn lemma_entries_index(es: Seq<MockRevisionEntry>, path: Seq<char>, i: int)
    requires
        entries_unique(es),
        0 <= i < es.len(),
        entry_path_matches(es[i], path),
    ensures
        entries_has(es, path),
        entries_index(es, path) == i,
{
    assert(entries_has(es, path));
    let j = entries_index(es, path);
    assert(0 <= j < es.len() && entry_path_matches(es[j], path));
    if i < j {
        assert(false);
    } else if j < i {
        assert(false);
    }
}

/// Finds the position of the entry under the given path.
pub fn entries_find(es: &Vec<MockRevisionEntry>, path: &String) -> (r: Option<usize>)
    ensures
        match r {
            Some(i) => i < es@.len() && entry_path_matches(es@[i as int], path@),
            None => !entries_has(es@, path@),
        },
{
    let mut i: usize = 0;
    while i < es.len()
        invariant
            i <= es@.len(),
            forall|j: int| 0 <= j < i ==> !entry_path_matches(es@[j], path@),
        decreases es@.len() - i,
    {
        if es[i].path == *path {
            return Some(i);
        }
        i = i + 1;
    }
    None
}

/// Inserts an entry, replacing any entry already under the same path.
pub fn upsert_entry(es: &mut Vec<MockRevisionEntry>, e: MockRevisionEntry)
    requires
        entries_unique(old(es)@),
    ensures
        entries_unique(final(es)@),
        entries_has(final(es)@, e.path@),
        entries_at(final(es)@, e.path@) == e.entry,
        forall|p: Seq<char>|
            p != e.path@ ==> #[trigger] entries_has(final(es)@, p) == entries_has(old(es)@, p),
        forall|p: Seq<char>|
            p != e.path@ && #[trigger] entries_has(old(es)@, p) ==> entries_at(final(es)@, p)
                == entries_at(old(es)@, p),
        final(es)@.len() == old(es)@.len() + (if entries_has(old(es)@, e.path@) {
            0int
        } else {
            1int
        }),
{
    let ghost old_es = es@;
    let ghost target = e.path@;
    let found = entries_find(es, &e.path);
    match found {
        Some(i) => {
            es[i] = e;
            proof {
                let ne = es@;
                assert forall|i2: int, j2: int| 0 <= i2 < j2 < ne.len() implies ne[i2].path@
                    != ne[j2].path@ by {
                    assert(old_es[i2].path@ != old_es[j2].path@);
                }
                lemma_entries_index(ne, target, i as int);
                lemma_entries_index(old_es, target, i as int);
                assert forall|p: Seq<char>| p != target implies #[trigger] entries_has(ne, p)
                    == entries_has(old_es, p) by {
                    if entries_has(ne, p) {
                        let j = entries_index(ne, p);
                        assert(entry_path_matches(old_es[j], p));
                    }
                    if entries_has(old_es, p) {
                        let j = entries_index(old_es, p);
                        assert(entry_path_matches(ne[j], p));
                    }
                }
                assert forall|p: Seq<char>| p != target && #[trigger] entries_has(old_es, p)
                    implies entries_at(ne, p) == entries_at(old_es, p) by {
                    let j = entries_index(old_es, p);
                    assert(0 <= j < old_es.len() && entry_path_matches(old_es[j], p));
                    assert(j != i);
                    assert(entry_path_matches(ne[j], p));
                    lemma_entries_index(ne, p, j);
                    lemma_entries_index(old_es, p, j);
                }
            }
        },
        None => {
            es.push(e);
            proof {
                let ne = es@;
                let n = old_es.len() as int;
                assert forall|i2: int, j2: int| 0 <= i2 < j2 < ne.len() implies ne[i2].path@
                    != ne[j2].path@ by {
                    if j2 < n {
                        assert(old_es[i2].path@ != old_es[j2].path@);
                    } else {
                        assert(!entry_path_matches(old_es[i2], target));
                    }
                }
                lemma_entries_index(ne, target, n);
                assert forall|p: Seq<char>| p != target implies #[trigger] entries_has(ne, p)
                    == entries_has(old_es, p) by {
                    if entries_has(ne, p) {
                        let j = entries_index(ne, p);
                        assert(j < n);
                        assert(entry_path_matches(old_es[j], p));
                    }
                    if entries_has(old_es, p) {
                        let j = entries_index(old_es, p);
                        assert(entry_path_matches(ne[j], p));
                    }
                }
                assert forall|p: Seq<char>| p != target && #[trigger] entries_has(old_es, p)
                    implies entries_at(ne, p) == entries_at(old_es, p) by {
                    let j = entries_index(old_es, p);
                    assert(entry_path_matches(ne[j], p));
                    lemma_entries_index(ne, p, j);
                    lemma_entries_index(old_es, p, j);
                }
            }
        },
    }
}

// ---------------------------------------------------------------------------
// Version-revision counters, keyed by optional version label.
// ---------------------------------------------------------------------------

/// One per-label revision counter.
#[derive(Debug)]
pub struct MockVrevCounter {
    pub version: Option<String>,
    pub vrev: u64,
}

impl Clone for MockVrevCounter {
    fn clone(&self) -> (r: Self)
        ensures
            spec_version_key(r.version) == spec_version_key(self.version),
            r.vrev == self.vrev,
    {
        MockVrevCounter { version: clone_opt_string(&self.version), vrev: self.vrev }
    }
}

/// A version label as compared: absent, or its characters.
pub open spec fn spec_version_key(v: Option<String>) -> Option<Seq<char>> {
    match v {
        Some(s) => Some(s@),
        None => None,
    }
}

/// Whether a counter carries the given label.
pub open spec fn counter_matches(c: MockVrevCounter, key: Option<Seq<char>>) -> bool {
    spec_version_key(c.version) == key
}

/// Whether some counter carries the given label.
pub open spec fn vrevs_has(cs: Seq<MockVrevCounter>, key: Option<Seq<char>>) -> bool {
    exists|i: int| 0 <= i < cs.len() && counter_matches(cs[i], key)
}

/// The position of the counter carrying the given label.
pub open spec fn vrevs_index(cs: Seq<MockVrevCounter>, key: Option<Seq<char>>) -> int {
    choose|i: int| 0 <= i < cs.len() && counter_matches(cs[i], key)
}

/// The counter value of a label; a label never counted stands at zero.
pub open spec fn vrev_value(cs: Seq<MockVrevCounter>, key: Option<Seq<char>>) -> u64 {
    if vrevs_has(cs, key) {
        cs[vrevs_index(cs, key)].vrev
    } else {
        0
    }
}

/// No two counters carry the same label.
pub open spec fn vrevs_unique(cs: Seq<MockVrevCounter>) -> bool {
    forall|i: int, j: int|
        0 <= i < j < cs.len() ==> spec_version_key(cs[i].version) != spec_version_key(
            cs[j].version,
        )
}

/// In a counter list with unique labels, a matching position is the position
/// every lookup resolves to.
pub proof fn lemma_vrevs_index(cs: Seq<MockVrevCounter>, key: Option<Seq<char>>, i: int)
    requires
        vrevs_unique(cs),
        0 <= i < cs.len(),
        counter_matches(cs[i], key),
    ensures
        vrevs_has(cs, key),
        vrevs_index(cs, key) == i,
        vrev_value(cs, key) == cs[i].vrev,
{
    assert(vrevs_has(cs, key));
    let j = vrevs_index(cs, key);
    assert(0 <= j < cs.len() && counter_matches(cs[j], key));
    if i < j {
        assert(false);
    } else if j < i {
        assert(false);
    }
}

/// Finds the position of the counter carrying the given label.
pub fn vrevs_find(cs: &Vec<MockVrevCounter>, version: &Option<String>) -> (r: Option<usize>)
    ensures
        match r {
            Some(i) => i < cs@.len() && counter_matches(cs@[i as int], spec_version_key(*version)),
            None => !vrevs_has(cs@, spec_version_key(*version)),
        },
{
    let mut i: usize = 0;
    while i < cs.len()
        invariant
            i <= cs@.len(),
            forall|j: int| 0 <= j < i ==> !counter_matches(cs@[j], spec_version_key(*version)),
        decreases cs@.len() - i,
    {
        if opt_string_eq(&cs[i].version, version) {
            proof {
                assert(spec_opt_string_eq(cs@[i as int].version, *version));
                assert(counter_matches(cs@[i as int], spec_version_key(*version)));
            }
            return Some(i);
        }
        proof {
            assert(!spec_opt_string_eq(cs@[i as int].version, *version));
            assert(!counter_matches(cs@[i as int], spec_version_key(*version)));
        }
        i = i + 1;
    }
    None
}

/// Steps the counter of a label, creating it at one where it never counted.
pub fn bump_vrev(cs: &mut Vec<MockVrevCounter>, version: &Option<String>) -> (v: u64)
    requires
        vrevs_unique(old(cs)@),
        vrev_value(old(cs)@, spec_version_key(*version)) < u64::MAX,
    ensures
        vrevs_unique(final(cs)@),
        v == vrev_value(old(cs)@, spec_version_key(*version)) + 1,
        vrev_value(final(cs)@, spec_version_key(*version)) == v,
        vrevs_has(final(cs)@, spec_version_key(*version)),
        forall|k: Option<Seq<char>>|
            k != spec_version_key(*version) ==> #[trigger] vrevs_has(final(cs)@, k) == vrevs_has(
                old(cs)@,
                k,
            ) && vrev_value(final(cs)@, k) == vrev_value(old(cs)@, k),
        forall|i: int|
            0 <= i < final(cs)@.len() ==> (#[trigger] final(cs)@[i]).vrev == v || old(
                cs,
            )@.contains(final(cs)@[i]),
{
    let ghost old_cs = cs@;
    let ghost key = spec_version_key(*version);
    let found = vrevs_find(cs, version);
    match found {
        Some(i) => {
            proof {
                lemma_vrevs_index(old_cs, key, i as int);
            }
            let v = cs[i].vrev + 1;
            let slot = MockVrevCounter { version: clone_opt_string(version), vrev: v };
            cs[i] = slot;
            proof {
                let nc = cs@;
                assert forall|i2: int, j2: int| 0 <= i2 < j2 < nc.len() implies spec_version_key(
                    nc[i2].version,
                ) != spec_version_key(nc[j2].version) by {
                    assert(spec_version_key(old_cs[i2].version) != spec_version_key(
                        old_cs[j2].version,
                    ));
                }
                lemma_vrevs_index(nc, key, i as int);
                assert forall|k: Option<Seq<char>>| k != key implies #[trigger] vrevs_has(nc, k)
                    == vrevs_has(old_cs, k) && vrev_value(nc, k) == vrev_value(old_cs, k) by {
                    if vrevs_has(nc, k) {
                        let j = vrevs_index(nc, k);
                        assert(j != i);
                        assert(counter_matches(old_cs[j], k));
                        lemma_vrevs_index(old_cs, k, j);
                        lemma_vrevs_index(nc, k, j);
                    }
                    if vrevs_has(old_cs, k) {
                        let j = vrevs_index(old_cs, k);
                        assert(j != i);
                        assert(counter_matches(nc[j], k));
                        lemma_vrevs_index(old_cs, k, j);
                        lemma_vrevs_index(nc, k, j);
                    }
                }
                assert forall|i2: int| 0 <= i2 < nc.len() implies (#[trigger] nc[i2]).vrev == v
                    || old_cs.contains(nc[i2]) by {
                    if i2 != i {
                        assert(nc[i2] == old_cs[i2]);
                        assert(old_cs.contains(nc[i2]));
                    }
                }
            }
            v
        },
        None => {
            let slot = MockVrevCounter { version: clone_opt_string(version), vrev: 1 };
            cs.push(slot);
            proof {
                let nc = cs@;
                let n = old_cs.len() as int;
                assert forall|i2: int, j2: int| 0 <= i2 < j2 < nc.len() implies spec_version_key(
                    nc[i2].version,
                ) != spec_version_key(nc[j2].version) by {
                    if j2 < n {
                        assert(spec_version_key(old_cs[i2].version) != spec_version_key(
                            old_cs[j2].version,
                        ));
                    } else {
                        assert(!counter_matches(old_cs[i2], key));
                    }
                }
                lemma_vrevs_index(nc, key, n);
                assert forall|k: Option<Seq<char>>| k != key implies #[trigger] vrevs_has(nc, k)
                    == vrevs_has(old_cs, k) && vrev_value(nc, k) == vrev_value(old_cs, k) by {
                    if vrevs_has(nc, k) {
                        let j = vrevs_index(nc, k);
                        assert(j < n);
                        assert(counter_matches(old_cs[j], k));
                        lemma_vrevs_index(old_cs, k, j);
                        lemma_vrevs_index(nc, k, j);
                    }
                    if vrevs_has(old_cs, k) {
                        let j = vrevs_index(old_cs, k);
                        assert(counter_matches(nc[j], k));
                        lemma_vrevs_index(old_cs, k, j);
                        lemma_vrevs_index(nc, k, j);
                    }
                }
                assert forall|i2: int| 0 <= i2 < nc.len() implies (#[trigger] nc[i2]).vrev == 1
                    || old_cs.contains(nc[i2]) by {
                    if i2 < n {
                        assert(nc[i2] == old_cs[i2]);
                        assert(old_cs.contains(nc[i2]));
                    }
                }
            }
            1
        },
    }
}

} // verus!
