//! One project: its packages by name, its repositories by name and
//! architecture, and its build modes.

use vstd::prelude::*;

use crate::builds::MockBuildStatus;
use crate::builds::MockRepositoryPackage;
use crate::codes::MockBlockMode;
use crate::codes::MockRebuildMode;
use crate::codes::MockRepositoryCode;
use crate::package::MockPackage;

verus! {

/// One repository/architecture cell: its state and the build results of the
/// packages built in it.
#[derive(Debug)]
pub struct MockRepository {
    pub code: MockRepositoryCode,
    pub packages: Vec<MockRepositoryPackage>,
}

/// A repository cell under the architecture that names it.
#[derive(Debug)]
pub struct MockArchCell {
    pub arch: String,
    pub repo: MockRepository,
}

/// A project's repository under the name that names it, with one cell per
/// architecture.
#[derive(Debug)]
pub struct MockRepositorySlot {
    pub name: String,
    pub arches: Vec<MockArchCell>,
}

/// A package under the name that names it.
#[derive(Debug)]
pub struct MockPackageSlot {
    pub name: String,
    pub package: MockPackage,
}

/// One project of the registry.
#[derive(Debug)]
pub struct MockProject {
    pub packages: Vec<MockPackageSlot>,
    pub repos: Vec<MockRepositorySlot>,
    pub rebuild: MockRebuildMode,
    pub block: MockBlockMode,
    pub rebuild_status: MockBuildStatus,
}

// ---------------------------------------------------------------------------
// Packages by name.
// ---------------------------------------------------------------------------

/// Whether some package slot carries the given name.
pub open spec fn pkgs_has(ps: Seq<MockPackageSlot>, name: Seq<char>) -> bool {
    exists|i: int| 0 <= i < ps.len() && (#[trigger] ps[i]).name@ == name
}

/// The position of the package slot carrying the given name.
pub open spec fn pkgs_index(ps: Seq<MockPackageSlot>, name: Seq<char>) -> int {
    choose|i: int| 0 <= i < ps.len() && (#[trigger] ps[i]).name@ == name
}

/// The package under the given name.
pub open spec fn pkgs_at(ps: Seq<MockPackageSlot>, name: Seq<char>) -> MockPackage {
    ps[pkgs_index(ps, name)].package
}

/// No two package slots share a name.
pub open spec fn pkgs_unique(ps: Seq<MockPackageSlot>) -> bool {
    forall|i: int, j: int| 0 <= i < j < ps.len() ==> ps[i].name@ != ps[j].name@
}

/// In a slot list with unique names, a matching position is the position
/// every lookup resolves to.
pub proof fn lemma_pkgs_index(ps: Seq<MockPackageSlot>, name: Seq<char>, i: int)
    requires
        pkgs_unique(ps),
        0 <= i < ps.len(),
        ps[i].name@ == name,
    ensures
        pkgs_has(ps, name),
        pkgs_index(ps, name) == i,
        pkgs_at(ps, name) == ps[i].package,
{
    assert(pkgs_has(ps, name));
    let j = pkgs_index(ps, name);
    assert(0 <= j < ps.len() && ps[j].name@ == name);
    if i < j {
        assert(false);
    } else if j < i {
        assert(false);
    }
}

/// Finds the position of the package slot carrying the given name.
pub fn pkgs_find(ps: &Vec<MockPackageSlot>, name: &String) -> (r: Option<usize>)
    ensures
        match r {
            Some(i) => i < ps@.len() && ps@[i as int].name@ == name@,
            None => !pkgs_has(ps@, name@),
        },
{
    let mut i: usize = 0;
    while i < ps.len()
        invariant
            i <= ps@.len(),
            forall|j: int| 0 <= j < i ==> (#[trigger] ps@[j]).name@ != name@,
        decreases ps@.len() - i,
    {
        if ps[i].name == *name {
            return Some(i);
        }
        i = i + 1;
    }
    None
}

// ---------------------------------------------------------------------------
// Repositories by name, architectures inside them.
// ---------------------------------------------------------------------------

/// Whether some repository slot carries the given name.
pub open spec fn repos_has(rs: Seq<MockRepositorySlot>, name: Seq<char>) -> bool {
    exists|i: int| 0 <= i < rs.len() && (#[trigger] rs[i]).name@ == name
}

/// The position of the repository slot carrying the given name.
pub open spec fn repos_index(rs: Seq<MockRepositorySlot>, name: Seq<char>) -> int {
    choose|i: int| 0 <= i < rs.len() && (#[trigger] rs[i]).name@ == name
}

/// No two repository slots share a name.
pub open spec fn repos_unique(rs: Seq<MockRepositorySlot>) -> bool {
    forall|i: int, j: int| 0 <= i < j < rs.len() ==> rs[i].name@ != rs[j].name@
}

/// In a slot list with unique names, a matching position is the position
/// every lookup resolves to.
pub proof fn lemma_repos_index(rs: Seq<MockRepositorySlot>, name: Seq<char>, i: int)
    requires
        repos_unique(rs),
        0 <= i < rs.len(),
        rs[i].name@ == name,
    ensures
        repos_has(rs, name),
        repos_index(rs, name) == i,
{
    assert(repos_has(rs, name));
    let j = repos_index(rs, name);
    assert(0 <= j < rs.len() && rs[j].name@ == name);
    if i < j {
        assert(false);
    } else if j < i {
        assert(false);
    }
}

/// Finds the position of the repository slot carrying the given name.
pub fn repos_find(rs: &Vec<MockRepositorySlot>, name: &String) -> (r: Option<usize>)
    ensures
        match r {
            Some(i) => i < rs@.len() && rs@[i as int].name@ == name@,
            None => !repos_has(rs@, name@),
        },
{
    let mut i: usize = 0;
    while i < rs.len()
        invariant
            i <= rs@.len(),
            forall|j: int| 0 <= j < i ==> (#[trigger] rs@[j]).name@ != name@,
        decreases rs@.len() - i,
    {
        if rs[i].name == *name {
            return Some(i);
        }
        i = i + 1;
    }
    None
}

/// Whether some cell carries the given architecture.
pub open spec fn arches_has(ars: Seq<MockArchCell>, arch: Seq<char>) -> bool {
    exists|i: int| 0 <= i < ars.len() && (#[trigger] ars[i]).arch@ == arch
}

/// The position of the cell carrying the given architecture.
pub open spec fn arches_index(ars: Seq<MockArchCell>, arch: Seq<char>) -> int {
    choose|i: int| 0 <= i < ars.len() && (#[trigger] ars[i]).arch@ == arch
}

/// No two cells share an architecture.
pub open spec fn arches_unique(ars: Seq<MockArchCell>) -> bool {
    forall|i: int, j: int| 0 <= i < j < ars.len() ==> ars[i].arch@ != ars[j].arch@
}

/// In a cell list with unique architectures, a matching position is the
/// position every lookup resolves to.
pub proof fn lemma_arches_index(ars: Seq<MockArchCell>, arch: Seq<char>, i: int)
    requires
        arches_unique(ars),
        0 <= i < ars.len(),
        ars[i].arch@ == arch,
    ensures
        arches_has(ars, arch),
        arches_index(ars, arch) == i,
{
    assert(arches_has(ars, arch));
    let j = arches_index(ars, arch);
    assert(0 <= j < ars.len() && ars[j].arch@ == arch);
    if i < j {
        assert(false);
    } else if j < i {
        assert(false);
    }
}

/// Finds the position of the cell carrying the given architecture.
pub fn arches_find(ars: &Vec<MockArchCell>, arch: &String) -> (r: Option<usize>)
    ensures
        match r {
            Some(i) => i < ars@.len() && ars@[i as int].arch@ == arch@,
            None => !arches_has(ars@, arch@),
        },
{
    let mut i: usize = 0;
    while i < ars.len()
        invariant
            i <= ars@.len(),
            forall|j: int| 0 <= j < i ==> (#[trigger] ars@[j]).arch@ != arch@,
        decreases ars@.len() - i,
    {
        if ars[i].arch == *arch {
            return Some(i);
        }
        i = i + 1;
    }
    None
}

/// Whether some build-results record carries the given package name.
pub open spec fn cellpkgs_has(ps: Seq<MockRepositoryPackage>, name: Seq<char>) -> bool {
    exists|i: int| 0 <= i < ps.len() && (#[trigger] ps[i]).name@ == name
}

/// The position of the record carrying the given package name.
pub open spec fn cellpkgs_index(ps: Seq<MockRepositoryPackage>, name: Seq<char>) -> int {
    choose|i: int| 0 <= i < ps.len() && (#[trigger] ps[i]).name@ == name
}

/// No two records share a package name.
pub open spec fn cellpkgs_unique(ps: Seq<MockRepositoryPackage>) -> bool {
    forall|i: int, j: int| 0 <= i < j < ps.len() ==> ps[i].name@ != ps[j].name@
}

/// In a record list with unique names, a matching position is the position
/// every lookup resolves to.
pub proof fn lemma_cellpkgs_index(ps: Seq<MockRepositoryPackage>, name: Seq<char>, i: int)
    requires
        cellpkgs_unique(ps),
        0 <= i < ps.len(),
        ps[i].name@ == name,
    ensures
        cellpkgs_has(ps, name),
        cellpkgs_index(ps, name) == i,
{
    assert(cellpkgs_has(ps, name));
    let j = cellpkgs_index(ps, name);
    assert(0 <= j < ps.len() && ps[j].name@ == name);
    if i < j {
        assert(false);
    } else if j < i {
        assert(false);
    }
}

/// Finds the position of the record carrying the given package name.
pub fn cellpkgs_find(ps: &Vec<MockRepositoryPackage>, name: &String) -> (r: Option<usize>)
    ensures
        match r {
            Some(i) => i < ps@.len() && ps@[i as int].name@ == name@,
            None => !cellpkgs_has(ps@, name@),
        },
{
    let mut i: usize = 0;
    while i < ps.len()
        invariant
            i <= ps@.len(),
            forall|j: int| 0 <= j < i ==> (#[trigger] ps@[j]).name@ != name@,
        decreases ps@.len() - i,
    {
        if ps[i].name == *name {
            return Some(i);
        }
        i = i + 1;
    }
    None
}

/// The build-result record of the given name.
pub open spec fn cellpkgs_at(ps: Seq<MockRepositoryPackage>, name: Seq<char>) -> MockRepositoryPackage {
    ps[cellpkgs_index(ps, name)]
}

/// Removes the build-result record of the given name from a cell, if one is
/// there; every other record is kept as it was.
pub fn purge_cellpkgs(ps: &mut Vec<MockRepositoryPackage>, name: &String)
    requires
        cellpkgs_unique(old(ps)@),
    ensures
        cellpkgs_unique(final(ps)@),
        !cellpkgs_has(final(ps)@, name@),
        forall|n: Seq<char>|
            n != name@ ==> #[trigger] cellpkgs_has(final(ps)@, n) == cellpkgs_has(old(ps)@, n),
        forall|n: Seq<char>|
            n != name@ && #[trigger] cellpkgs_has(old(ps)@, n) ==> cellpkgs_at(final(ps)@, n)
                == cellpkgs_at(old(ps)@, n),
{
    let ghost old_ps = ps@;
    let ghost target = name@;
    let found = cellpkgs_find(ps, name);
    match found {
        Some(i) => {
            ps.remove(i);
            proof {
                let np = ps@;
                assert forall|j: int| 0 <= j < np.len() implies #[trigger] np[j] == (if j < i {
                    old_ps[j]
                } else {
                    old_ps[j + 1]
                }) by {}
                assert forall|i2: int, j2: int| 0 <= i2 < j2 < np.len() implies np[i2].name@
                    != np[j2].name@ by {}
                assert forall|n: Seq<char>| cellpkgs_has(np, n) implies cellpkgs_has(old_ps, n)
                    && n != target by {
                    let j = cellpkgs_index(np, n);
                    if j < i {
                        assert(old_ps[j].name@ == n);
                        lemma_cellpkgs_index(old_ps, n, j);
                    } else {
                        assert(old_ps[j + 1].name@ == n);
                        lemma_cellpkgs_index(old_ps, n, j + 1);
                    }
                    assert(old_ps[i as int].name@ == target);
                }
                assert forall|n: Seq<char>| n != target && #[trigger] cellpkgs_has(old_ps, n)
                    implies cellpkgs_has(np, n) && cellpkgs_at(np, n) == cellpkgs_at(
                    old_ps,
                    n,
                ) by {
                    let j = cellpkgs_index(old_ps, n);
                    lemma_cellpkgs_index(old_ps, n, j);
                    assert(j != i);
                    if j < i {
                        assert(np[j].name@ == n);
                        lemma_cellpkgs_index(np, n, j);
                    } else {
                        assert(np[j - 1].name@ == n);
                        lemma_cellpkgs_index(np, n, j - 1);
                    }
                }
            }
        },
        None => {},
    }
}

/// A cell after the named package's build results were removed: same code,
/// the name gone, every other record kept.
pub open spec fn spec_cell_purged(ca: MockRepository, cb: MockRepository, name: Seq<char>) -> bool {
    &&& cb.code == ca.code
    &&& cellpkgs_unique(cb.packages@)
    &&& !cellpkgs_has(cb.packages@, name)
    &&& forall|n: Seq<char>|
        n != name ==> #[trigger] cellpkgs_has(cb.packages@, n) == cellpkgs_has(ca.packages@, n)
    &&& forall|n: Seq<char>|
        n != name && #[trigger] cellpkgs_has(ca.packages@, n) ==> cellpkgs_at(cb.packages@, n)
            == cellpkgs_at(ca.packages@, n)
}

/// A repository slot after the named package's build results were removed
/// from every cell.
pub open spec fn spec_repo_purged(
    ra: MockRepositorySlot,
    rb: MockRepositorySlot,
    name: Seq<char>,
) -> bool {
    &&& rb.name == ra.name
    &&& rb.arches@.len() == ra.arches@.len()
    &&& forall|j: int|
        0 <= j < ra.arches@.len() ==> (#[trigger] rb.arches@[j]).arch == ra.arches@[j].arch
            && spec_cell_purged(ra.arches@[j].repo, rb.arches@[j].repo, name)
}

impl MockProject {
    /// Removes the named package's build results from every repository cell
    /// of the project; the packages themselves and the project's modes are
    /// untouched.
    pub fn purge_repo_package(&mut self, package_name: &String)
        requires
            old(self).wf(),
        ensures
            final(self).wf(),
            final(self).packages == old(self).packages,
            final(self).rebuild == old(self).rebuild,
            final(self).block == old(self).block,
            final(self).rebuild_status == old(self).rebuild_status,
            final(self).repos@.len() == old(self).repos@.len(),
            forall|i: int|
                0 <= i < old(self).repos@.len() ==> spec_repo_purged(
                    old(self).repos@[i],
                    #[trigger] final(self).repos@[i],
                    package_name@,
                ),
    {
        let ghost old_self = *old(self);
        let mut i: usize = 0;
        while i < self.repos.len()
            invariant
                old_self.wf(),
                self.packages == old_self.packages,
                self.rebuild == old_self.rebuild,
                self.block == old_self.block,
                self.rebuild_status == old_self.rebuild_status,
                self.repos@.len() == old_self.repos@.len(),
                i <= self.repos@.len(),
                forall|i2: int|
                    i <= i2 < self.repos@.len() ==> #[trigger] self.repos@[i2]
                        == old_self.repos@[i2],
                forall|i2: int|
                    0 <= i2 < i ==> spec_repo_purged(
                        old_self.repos@[i2],
                        #[trigger] self.repos@[i2],
                        package_name@,
                    ),
            decreases self.repos@.len() - i,
        {
            let mut j: usize = 0;
            let arches_len = self.repos[i].arches.len();
            while j < arches_len
                invariant
                    old_self.wf(),
                    self.packages == old_self.packages,
                    self.rebuild == old_self.rebuild,
                    self.block == old_self.block,
                    self.rebuild_status == old_self.rebuild_status,
                    self.repos@.len() == old_self.repos@.len(),
                    i < self.repos@.len(),
                    arches_len == old_self.repos@[i as int].arches@.len(),
                    j <= arches_len,
                    forall|i2: int|
                        i < i2 < self.repos@.len() ==> #[trigger] self.repos@[i2]
                            == old_self.repos@[i2],
                    forall|i2: int|
                        0 <= i2 < i ==> spec_repo_purged(
                            old_self.repos@[i2],
                            #[trigger] self.repos@[i2],
                            package_name@,
                        ),
                    self.repos@[i as int].name == old_self.repos@[i as int].name,
                    self.repos@[i as int].arches@.len() == arches_len,
                    forall|j2: int|
                        j <= j2 < arches_len ==> #[trigger] self.repos@[i as int].arches@[j2]
                            == old_self.repos@[i as int].arches@[j2],
                    forall|j2: int|
                        0 <= j2 < j ==> (#[trigger] self.repos@[i as int].arches@[j2]).arch
                            == old_self.repos@[i as int].arches@[j2].arch && spec_cell_purged(
                            old_self.repos@[i as int].arches@[j2].repo,
                            self.repos@[i as int].arches@[j2].repo,
                            package_name@,
                        ),
                decreases arches_len - j,
            {
                proof {
                    assert(self.repos@[i as int].arches@[j as int] == old_self.repos@[
                        i as int].arches@[j as int]);
                    assert(cellpkgs_unique(
                        self.repos@[i as int].arches@[j as int].repo.packages@,
                    ));
                }
                purge_cellpkgs(&mut self.repos[i].arches[j].repo.packages, package_name);
                j = j + 1;
            }
            i = i + 1;
        }
    }
}

/// Two repository maps carry the same shape: the same repositories, cells
/// and codes, and the same build-result records by name and status.
pub open spec fn spec_repos_shape_eq(
    a: Seq<MockRepositorySlot>,
    b: Seq<MockRepositorySlot>,
) -> bool {
    &&& a.len() == b.len()
    &&& forall|i: int|
        0 <= i < a.len() ==> {
            let ra = #[trigger] a[i];
            let rb = b[i];
            &&& rb.name@ == ra.name@
            &&& rb.arches@.len() == ra.arches@.len()
            &&& forall|j: int|
                0 <= j < ra.arches@.len() ==> {
                    let ca = #[trigger] ra.arches@[j];
                    let cb = rb.arches@[j];
                    &&& cb.arch@ == ca.arch@
                    &&& cb.repo.code == ca.repo.code
                    &&& cb.repo.packages@.len() == ca.repo.packages@.len()
                    &&& forall|k: int|
                        0 <= k < ca.repo.packages@.len() ==> (
                        #[trigger] cb.repo.packages@[k]).name@ == ca.repo.packages@[k].name@
                            && cb.repo.packages@[k].status == ca.repo.packages@[k].status
                }
        }
}

/// Copies a cell's build-result records, record for record.
pub fn clone_cell_packages(v: &Vec<MockRepositoryPackage>) -> (r: Vec<MockRepositoryPackage>)
    ensures
        r@.len() == v@.len(),
        forall|k: int|
            0 <= k < v@.len() ==> (#[trigger] r@[k]).name@ == v@[k].name@ && r@[k].status
                == v@[k].status,
{
    let mut r: Vec<MockRepositoryPackage> = Vec::new();
    let mut k: usize = 0;
    while k < v.len()
        invariant
            k <= v@.len(),
            r@.len() == k,
            forall|j: int|
                0 <= j < k ==> (#[trigger] r@[j]).name@ == v@[j].name@ && r@[j].status
                    == v@[j].status,
        decreases v@.len() - k,
    {
        r.push(v[k].clone());
        k = k + 1;
    }
    r
}

/// Copies a repository map, shape for shape.
pub fn clone_repos(v: &Vec<MockRepositorySlot>) -> (r: Vec<MockRepositorySlot>)
    ensures
        spec_repos_shape_eq(v@, r@),
{
    let mut r: Vec<MockRepositorySlot> = Vec::new();
    let mut i: usize = 0;
    while i < v.len()
        invariant
            i <= v@.len(),
            r@.len() == i,
            forall|i2: int|
                0 <= i2 < i ==> {
                    let ra = #[trigger] v@[i2];
                    let rb = r@[i2];
                    &&& rb.name@ == ra.name@
                    &&& rb.arches@.len() == ra.arches@.len()
                    &&& forall|j: int|
                        0 <= j < ra.arches@.len() ==> {
                            let ca = #[trigger] ra.arches@[j];
                            let cb = rb.arches@[j];
                            &&& cb.arch@ == ca.arch@
                            &&& cb.repo.code == ca.repo.code
                            &&& cb.repo.packages@.len() == ca.repo.packages@.len()
                            &&& forall|k: int|
                                0 <= k < ca.repo.packages@.len() ==> (
                                #[trigger] cb.repo.packages@[k]).name@
                                    == ca.repo.packages@[k].name@ && cb.repo.packages@[k].status
                                    == ca.repo.packages@[k].status
                        }
                },
        decreases v@.len() - i,
    {
        let slot = &v[i];
        let mut arches: Vec<MockArchCell> = Vec::new();
        let mut j: usize = 0;
        while j < slot.arches.len()
            invariant
                j <= slot.arches@.len(),
                arches@.len() == j,
                forall|j2: int|
                    0 <= j2 < j ==> {
                        let ca = #[trigger] slot.arches@[j2];
                        let cb = arches@[j2];
                        &&& cb.arch@ == ca.arch@
                        &&& cb.repo.code == ca.repo.code
                        &&& cb.repo.packages@.len() == ca.repo.packages@.len()
                        &&& forall|k: int|
                            0 <= k < ca.repo.packages@.len() ==> (
                            #[trigger] cb.repo.packages@[k]).name@ == ca.repo.packages@[k].name@
                                && cb.repo.packages@[k].status == ca.repo.packages@[k].status
                    },
            decreases slot.arches@.len() - j,
        {
            let cell = &slot.arches[j];
            arches.push(
                MockArchCell {
                    arch: cell.arch.clone(),
                    repo: MockRepository {
                        code: cell.repo.code,
                        packages: clone_cell_packages(&cell.repo.packages),
                    },
                },
            );
            j = j + 1;
        }
        r.push(MockRepositorySlot { name: slot.name.clone(), arches });
        i = i + 1;
    }
    r
}

// ---------------------------------------------------------------------------
// The project itself.
// ---------------------------------------------------------------------------

/// Replacing the package of one slot, name kept, leaves every other package
/// as it was.
pub proof fn lemma_pkgs_update_frame(p: MockProject, q: MockProject, i: int)
    requires
        pkgs_unique(p.packages@),
        0 <= i < p.packages@.len(),
        q.packages@ == p.packages@.update(
            i,
            MockPackageSlot { name: p.packages@[i].name, package: q.packages@[i].package },
        ),
        q.repos == p.repos,
        q.rebuild == p.rebuild,
        q.block == p.block,
        q.rebuild_status == p.rebuild_status,
    ensures
        pkgs_unique(q.packages@),
        p.spec_same_except_package(q, p.packages@[i].name@),
        q.spec_has_package(p.packages@[i].name@),
        q.spec_package(p.packages@[i].name@) == q.packages@[i].package,
{
    let ps = p.packages@;
    let qs = q.packages@;
    let target = ps[i].name@;
    assert forall|i2: int, j2: int| 0 <= i2 < j2 < qs.len() implies qs[i2].name@
        != qs[j2].name@ by {
        assert(ps[i2].name@ != ps[j2].name@);
    }
    lemma_pkgs_index(qs, target, i);
    assert forall|n: Seq<char>| n != target implies #[trigger] pkgs_has(qs, n) == pkgs_has(
        ps,
        n,
    ) by {
        if pkgs_has(qs, n) {
            let j = pkgs_index(qs, n);
            assert(ps[j].name@ == n);
        }
        if pkgs_has(ps, n) {
            let j = pkgs_index(ps, n);
            assert(qs[j].name@ == n);
        }
    }
    assert forall|n: Seq<char>| n != target && #[trigger] pkgs_has(ps, n) implies pkgs_at(qs, n)
        == pkgs_at(ps, n) by {
        let j = pkgs_index(ps, n);
        assert(0 <= j < ps.len() && ps[j].name@ == n);
        assert(j != i);
        lemma_pkgs_index(qs, n, j);
        lemma_pkgs_index(ps, n, j);
    }
}

impl MockProject {
    /// The project's invariant: names unique at every level, and every
    /// package well-formed.
    pub open spec fn wf(self) -> bool {
        &&& pkgs_unique(self.packages@)
        &&& forall|i: int|
            0 <= i < self.packages@.len() ==> (#[trigger] self.packages@[i]).package.wf()
        &&& repos_unique(self.repos@)
        &&& forall|i: int|
            0 <= i < self.repos@.len() ==> arches_unique((#[trigger] self.repos@[i]).arches@)
        &&& forall|i: int, j: int|
            0 <= i < self.repos@.len() && 0 <= j < self.repos@[i].arches@.len()
                ==> cellpkgs_unique(#[trigger] self.repos@[i].arches@[j].repo.packages@)
    }

    /// Whether the project holds a package of the given name.
    pub open spec fn spec_has_package(self, name: Seq<char>) -> bool {
        pkgs_has(self.packages@, name)
    }

    /// The package of the given name.
    pub open spec fn spec_package(self, name: Seq<char>) -> MockPackage {
        pkgs_at(self.packages@, name)
    }

    /// The other project agrees with this one everywhere except possibly at
    /// the named package.
    pub open spec fn spec_same_except_package(self, other: MockProject, name: Seq<char>) -> bool {
        &&& forall|n: Seq<char>|
            n != name ==> #[trigger] other.spec_has_package(n) == self.spec_has_package(n)
        &&& forall|n: Seq<char>|
            n != name && #[trigger] self.spec_has_package(n) ==> other.spec_package(n)
                == self.spec_package(n)
        &&& other.repos == self.repos
        &&& other.rebuild == self.rebuild
        &&& other.block == self.block
        &&& other.rebuild_status == self.rebuild_status
    }

    /// An empty project with default modes.
    pub fn empty() -> (p: MockProject)
        ensures
            p.wf(),
            p.packages@.len() == 0,
            p.repos@.len() == 0,
            p.rebuild == MockRebuildMode::Transitive,
            p.block == MockBlockMode::All,
    {
        MockProject {
            packages: Vec::new(),
            repos: Vec::new(),
            rebuild: MockRebuildMode::Transitive,
            block: MockBlockMode::All,
            rebuild_status: MockBuildStatus::default(),
        }
    }

    /// Whether the project holds a package of the given name.
    pub fn contains_package(&self, name: &String) -> (r: bool)
        ensures
            r == self.spec_has_package(name@),
    {
        let found = pkgs_find(&self.packages, name);
        match found {
            Some(_) => true,
            None => false,
        }
    }

    /// The package of the given name, read-only.
    pub fn package<'a>(&'a self, name: &String) -> (r: Option<&'a MockPackage>)
        requires
            self.wf(),
        ensures
            r is Some <==> self.spec_has_package(name@),
            r is Some ==> *r.unwrap() == self.spec_package(name@),
    {
        let found = pkgs_find(&self.packages, name);
        match found {
            Some(i) => {
                proof {
                    lemma_pkgs_index(self.packages@, name@, i as int);
                }
                Some(&self.packages[i].package)
            },
            None => None,
        }
    }

    /// The package of the given name, for mutation. The project afterwards
    /// differs from the project before only in what the caller makes of the
    /// returned package.
    pub fn package_mut<'a>(&'a mut self, name: &String) -> (r: &'a mut MockPackage)
        requires
            pkgs_unique(old(self).packages@),
            old(self).spec_has_package(name@),
        ensures
            *r == old(self).spec_package(name@),
            final(self).packages@ == old(self).packages@.update(
                pkgs_index(old(self).packages@, name@),
                MockPackageSlot {
                    name: old(self).packages@[pkgs_index(old(self).packages@, name@)].name,
                    package: *final(r),
                },
            ),
            final(self).repos == old(self).repos,
            final(self).rebuild == old(self).rebuild,
            final(self).block == old(self).block,
            final(self).rebuild_status == old(self).rebuild_status,
    {
        let found = pkgs_find(&self.packages, name);
        match found {
            Some(i) => {
                proof {
                    lemma_pkgs_index(self.packages@, name@, i as int);
                }
                &mut self.packages[i].package
            },
            None => {
                proof {
                    assert(false);
                }
                unreached()
            },
        }
    }

    /// Inserts a package under a name, replacing any package already there.
    pub fn insert_package(&mut self, name: String, package: MockPackage)
        requires
            old(self).wf(),
            package.wf(),
        ensures
            final(self).wf(),
            final(self).spec_has_package(name@),
            final(self).spec_package(name@) == package,
            forall|n: Seq<char>|
                n != name@ ==> #[trigger] final(self).spec_has_package(n) == old(self).spec_has_package(n),
            forall|n: Seq<char>|
                n != name@ && #[trigger] old(self).spec_has_package(n) ==> final(self).spec_package(n) == old(self).spec_package(n),
            final(self).packages@.len() == old(self).packages@.len() + (if old(self).spec_has_package(name@) {
                0int
            } else {
                1int
            }),
            final(self).repos == old(self).repos,
            final(self).rebuild == old(self).rebuild,
            final(self).block == old(self).block,
            final(self).rebuild_status == old(self).rebuild_status,
    {
        let ghost old_ps = self.packages@;
        let ghost target = name@;
        let found = pkgs_find(&self.packages, &name);
        match found {
            Some(i) => {
                let slot = MockPackageSlot { name, package };
                self.packages[i] = slot;
                proof {
                    let np = self.packages@;
                    assert forall|i2: int, j2: int| 0 <= i2 < j2 < np.len() implies np[i2].name@
                        != np[j2].name@ by {
                        assert(old_ps[i2].name@ != old_ps[j2].name@);
                    }
                    lemma_pkgs_index(np, target, i as int);
                    assert forall|n: Seq<char>| n != target implies #[trigger] pkgs_has(np, n)
                        == pkgs_has(old_ps, n) by {
                        if pkgs_has(np, n) {
                            let j = pkgs_index(np, n);
                            assert(old_ps[j].name@ == n);
                        }
                        if pkgs_has(old_ps, n) {
                            let j = pkgs_index(old_ps, n);
                            assert(np[j].name@ == n);
                        }
                    }
                    assert forall|n: Seq<char>| n != target && #[trigger] pkgs_has(old_ps, n)
                        implies pkgs_at(np, n) == pkgs_at(old_ps, n) by {
                        let j = pkgs_index(old_ps, n);
                        assert(0 <= j < old_ps.len() && old_ps[j].name@ == n);
                        assert(j != i);
                        lemma_pkgs_index(np, n, j);
                        lemma_pkgs_index(old_ps, n, j);
                    }
                }
            },
            None => {
                let slot = MockPackageSlot { name, package };
                self.packages.push(slot);
                proof {
                    let np = self.packages@;
                    let n0 = old_ps.len() as int;
                    assert forall|i2: int, j2: int| 0 <= i2 < j2 < np.len() implies np[i2].name@
                        != np[j2].name@ by {
                        if j2 < n0 {
                            assert(old_ps[i2].name@ != old_ps[j2].name@);
                        } else {
                            assert(old_ps[i2].name@ != target);
                        }
                    }
                    lemma_pkgs_index(np, target, n0);
                    assert forall|n: Seq<char>| n != target implies #[trigger] pkgs_has(np, n)
                        == pkgs_has(old_ps, n) by {
                        if pkgs_has(np, n) {
                            let j = pkgs_index(np, n);
                            assert(j < n0);
                            assert(old_ps[j].name@ == n);
                        }
                        if pkgs_has(old_ps, n) {
                            let j = pkgs_index(old_ps, n);
                            assert(np[j].name@ == n);
                        }
                    }
                    assert forall|n: Seq<char>| n != target && #[trigger] pkgs_has(old_ps, n)
                        implies pkgs_at(np, n) == pkgs_at(old_ps, n) by {
                        let j = pkgs_index(old_ps, n);
                        assert(np[j].name@ == n);
                        lemma_pkgs_index(np, n, j);
                        lemma_pkgs_index(old_ps, n, j);
                    }
                }
            },
        }
    }

    /// Removes the package of the given name; says whether one was there.
    pub fn remove_package(&mut self, name: &String) -> (removed: bool)
        requires
            old(self).wf(),
        ensures
            final(self).wf(),
            removed == old(self).spec_has_package(name@),
            !final(self).spec_has_package(name@),
            forall|n: Seq<char>|
                n != name@ ==> #[trigger] final(self).spec_has_package(n) == old(self).spec_has_package(n),
            forall|n: Seq<char>|
                n != name@ && #[trigger] old(self).spec_has_package(n) ==> final(self).spec_package(n) == old(self).spec_package(n),
            final(self).repos == old(self).repos,
            final(self).rebuild == old(self).rebuild,
            final(self).block == old(self).block,
            final(self).rebuild_status == old(self).rebuild_status,
    {
        let ghost old_ps = self.packages@;
        let ghost target = name@;
        let found = pkgs_find(&self.packages, name);
        match found {
            Some(i) => {
                self.packages.remove(i);
                proof {
                    let np = self.packages@;
                    assert(np =~= old_ps.subrange(0, i as int) + old_ps.subrange(
                        i + 1 as int,
                        old_ps.len() as int,
                    ));
                    assert forall|j: int| 0 <= j < np.len() implies #[trigger] np[j] == (if j < i {
                        old_ps[j]
                    } else {
                        old_ps[j + 1]
                    }) by {}
                    assert forall|i2: int, j2: int| 0 <= i2 < j2 < np.len() implies np[i2].name@
                        != np[j2].name@ by {}
                    assert forall|n: Seq<char>| pkgs_has(np, n) implies pkgs_has(old_ps, n) && n
                        != target by {
                        let j = pkgs_index(np, n);
                        if j < i {
                            assert(old_ps[j].name@ == n);
                            lemma_pkgs_index(old_ps, n, j);
                        } else {
                            assert(old_ps[j + 1].name@ == n);
                            lemma_pkgs_index(old_ps, n, j + 1);
                        }
                        assert(old_ps[i as int].name@ == target);
                    }
                    assert forall|n: Seq<char>| n != target && #[trigger] pkgs_has(old_ps, n)
                        implies pkgs_has(np, n) && pkgs_at(np, n) == pkgs_at(old_ps, n) by {
                        let j = pkgs_index(old_ps, n);
                        lemma_pkgs_index(old_ps, n, j);
                        assert(j != i);
                        if j < i {
                            assert(np[j].name@ == n);
                            lemma_pkgs_index(np, n, j);
                        } else {
                            assert(np[j - 1].name@ == n);
                            lemma_pkgs_index(np, n, j - 1);
                        }
                    }
                }
                true
            },
            None => false,
        }
    }
}

} // verus!
