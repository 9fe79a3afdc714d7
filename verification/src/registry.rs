//! The registry of projects, and the seeding operations tests drive it
//! with: creating projects and packages, storing blobs, appending revisions
//! and branching packages directly.

use vstd::prelude::*;

use crate::errors::MockApiError;
use crate::package::spec_branched_package;
use crate::package::spec_fresh_package;
use crate::package::spec_revision_appended;
use crate::package::entries_in_store;
use crate::package::MockPackage;
use crate::project::lemma_pkgs_update_frame;
use crate::project::pkgs_index;
use crate::project::pkgs_unique;
use crate::project::MockPackageSlot;
use crate::project::MockProject;
use crate::codes::MockBlockMode;
use crate::codes::MockRebuildMode;
use crate::store::entries_unique;
use crate::types::MockBranchOptions;
use crate::types::MockPackageOptions;
use crate::types::MockRevisionEntry;
use crate::types::MockRevisionOptions;
use crate::types::MockSourceFile;
use crate::types::MockSourceFileKey;
use crate::digest::md5_hex_of;
use crate::store::store_contents;
use crate::store::store_has;

verus! {

/// A project under the name that names it.
#[derive(Debug)]
pub struct MockProjectSlot {
    pub name: String,
    pub project: MockProject,
}

/// Whether some project slot carries the given name.
pub open spec fn projs_has(ps: Seq<MockProjectSlot>, name: Seq<char>) -> bool {
    exists|i: int| 0 <= i < ps.len() && (#[trigger] ps[i]).name@ == name
}

/// The position of the project slot carrying the given name.
pub open spec fn projs_index(ps: Seq<MockProjectSlot>, name: Seq<char>) -> int {
    choose|i: int| 0 <= i < ps.len() && (#[trigger] ps[i]).name@ == name
}

/// The project under the given name.
pub open spec fn projs_at(ps: Seq<MockProjectSlot>, name: Seq<char>) -> MockProject {
    ps[projs_index(ps, name)].project
}

/// No two project slots share a name.
pub open spec fn projs_unique(ps: Seq<MockProjectSlot>) -> bool {
    forall|i: int, j: int| 0 <= i < j < ps.len() ==> ps[i].name@ != ps[j].name@
}

/// In a slot list with unique names, a matching position is the position
/// every lookup resolves to.
pub proof fn lemma_projs_index(ps: Seq<MockProjectSlot>, name: Seq<char>, i: int)
    requires
        projs_unique(ps),
        0 <= i < ps.len(),
        ps[i].name@ == name,
    ensures
        projs_has(ps, name),
        projs_index(ps, name) == i,
        projs_at(ps, name) == ps[i].project,
{
    assert(projs_has(ps, name));
    let j = projs_index(ps, name);
    assert(0 <= j < ps.len() && ps[j].name@ == name);
    if i < j {
        assert(false);
    } else if j < i {
        assert(false);
    }
}

/// Finds the position of the project slot carrying the given name.
pub fn projs_find(ps: &Vec<MockProjectSlot>, name: &String) -> (r: Option<usize>)
    ensures
        match r {
            Some(i) => i < ps@.len() && ps@[i as int].name@ == name@,
            None => !projs_has(ps@, name@),
        },
{
    let mut i: usize = 0;
    while i < ps.len()
        invariant
            i <= ps@.len(),
            forall|j: int| 0 <= j < i ==> (#[trigger] ps@[j]).name@ != name@,
        decreases ps@.len() - i,
    {
        if ps[i].name == *name {
            return Some(i);
        }
        i = i + 1;
    }
    None
}

/// The registry: every project the mock currently serves.
#[derive(Debug)]
pub struct ObsMock {
    pub projects: Vec<MockProjectSlot>,
}

impl ObsMock {
    /// The registry's invariant: unique project names, every project
    /// well-formed.
    pub open spec fn wf(self) -> bool {
        &&& projs_unique(self.projects@)
        &&& forall|i: int|
            0 <= i < self.projects@.len() ==> (#[trigger] self.projects@[i]).project.wf()
    }

    /// Whether the registry holds a project of the given name.
    pub open spec fn spec_has_project(self, name: Seq<char>) -> bool {
        projs_has(self.projects@, name)
    }

    /// The project of the given name.
    pub open spec fn spec_project(self, name: Seq<char>) -> MockProject {
        projs_at(self.projects@, name)
    }

    /// The other registry agrees with this one everywhere except possibly at
    /// the named project.
    pub open spec fn spec_same_except_project(self, other: ObsMock, name: Seq<char>) -> bool {
        &&& forall|n: Seq<char>|
            n != name ==> #[trigger] other.spec_has_project(n) == self.spec_has_project(n)
        &&& forall|n: Seq<char>|
            n != name && #[trigger] self.spec_has_project(n) ==> other.spec_project(n)
                == self.spec_project(n)
    }

    /// An empty registry.
    pub fn new() -> (r: ObsMock)
        ensures
            r.wf(),
            r.projects@.len() == 0,
    {
        ObsMock { projects: Vec::new() }
    }

    /// Whether the registry holds a project of the given name.
    pub fn contains_project(&self, name: &String) -> (r: bool)
        ensures
            r == self.spec_has_project(name@),
    {
        let found = projs_find(&self.projects, name);
        match found {
            Some(_) => true,
            None => false,
        }
    }

    /// The project of the given name, read-only.
    pub fn project_ref<'a>(&'a self, name: &String) -> (r: Option<&'a MockProject>)
        requires
            self.wf(),
        ensures
            r is Some <==> self.spec_has_project(name@),
            r is Some ==> *r.unwrap() == self.spec_project(name@),
    {
        let found = projs_find(&self.projects, name);
        match found {
            Some(i) => {
                proof {
                    lemma_projs_index(self.projects@, name@, i as int);
                }
                Some(&self.projects[i].project)
            },
            None => None,
        }
    }

    /// The project of the given name, for mutation. The registry afterwards
    /// differs from the registry before only in what the caller makes of the
    /// returned project.
    pub fn project_mut<'a>(&'a mut self, name: &String) -> (r: &'a mut MockProject)
        requires
            projs_unique(old(self).projects@),
            old(self).spec_has_project(name@),
        ensures
            *r == old(self).spec_project(name@),
            final(self).projects@ == old(self).projects@.update(
                projs_index(old(self).projects@, name@),
                MockProjectSlot {
                    name: old(self).projects@[projs_index(old(self).projects@, name@)].name,
                    project: *final(r),
                },
            ),
    {
        get_project(&mut self.projects, name)
    }
}

/// The project of the given name, for mutation. The slot list afterwards
/// differs from the list before only in what the caller makes of the
/// returned project.
pub fn get_project<'p>(projects: &'p mut Vec<MockProjectSlot>, name: &String) -> (p:
    &'p mut MockProject)
    requires
        projs_unique(old(projects)@),
        projs_has(old(projects)@, name@),
    ensures
        *p == projs_at(old(projects)@, name@),
        final(projects)@ == old(projects)@.update(
            projs_index(old(projects)@, name@),
            MockProjectSlot {
                name: old(projects)@[projs_index(old(projects)@, name@)].name,
                project: *final(p),
            },
        ),
{
    let found = projs_find(projects, name);
    match found {
        Some(i) => {
            proof {
                lemma_projs_index(projects@, name@, i as int);
            }
            &mut projects[i].project
        },
        None => {
            proof {
                assert(false);
            }
            unreached()
        },
    }
}

/// The package of the given name, for mutation. The project afterwards
/// differs from the project before only in what the caller makes of the
/// returned package.
pub fn get_package<'p>(project: &'p mut MockProject, name: &String) -> (p: &'p mut MockPackage)
    requires
        pkgs_unique(old(project).packages@),
        old(project).spec_has_package(name@),
    ensures
        *p == old(project).spec_package(name@),
        final(project).packages@ == old(project).packages@.update(
            pkgs_index(old(project).packages@, name@),
            MockPackageSlot {
                name: old(project).packages@[pkgs_index(old(project).packages@, name@)].name,
                package: *final(p),
            },
        ),
        final(project).repos == old(project).repos,
        final(project).rebuild == old(project).rebuild,
        final(project).block == old(project).block,
        final(project).rebuild_status == old(project).rebuild_status,
{
    project.package_mut(name)
}

/// Replacing the project of one slot, name kept, leaves every other project
/// as it was.
pub proof fn lemma_projs_update_frame(a: ObsMock, b: ObsMock, i: int)
    requires
        projs_unique(a.projects@),
        0 <= i < a.projects@.len(),
        b.projects@ == a.projects@.update(
            i,
            MockProjectSlot { name: a.projects@[i].name, project: b.projects@[i].project },
        ),
    ensures
        projs_unique(b.projects@),
        a.spec_same_except_project(b, a.projects@[i].name@),
        b.spec_has_project(a.projects@[i].name@),
        b.spec_project(a.projects@[i].name@) == b.projects@[i].project,
{
    let ps = a.projects@;
    let qs = b.projects@;
    let target = ps[i].name@;
    assert forall|i2: int, j2: int| 0 <= i2 < j2 < qs.len() implies qs[i2].name@
        != qs[j2].name@ by {
        assert(ps[i2].name@ != ps[j2].name@);
    }
    lemma_projs_index(qs, target, i);
    assert forall|n: Seq<char>| n != target implies #[trigger] projs_has(qs, n) == projs_has(
        ps,
        n,
    ) by {
        if projs_has(qs, n) {
            let j = projs_index(qs, n);
            assert(ps[j].name@ == n);
        }
        if projs_has(ps, n) {
            let j = projs_index(ps, n);
            assert(qs[j].name@ == n);
        }
    }
    assert forall|n: Seq<char>| n != target && #[trigger] projs_has(ps, n) implies projs_at(qs, n)
        == projs_at(ps, n) by {
        let j = projs_index(ps, n);
        assert(0 <= j < ps.len() && ps[j].name@ == n);
        assert(j != i);
        lemma_projs_index(qs, n, j);
        lemma_projs_index(ps, n, j);
    }
}

impl ObsMock {
    /// Creates the named project, empty, if it does not exist yet; an
    /// existing project is left exactly as it was.
    pub fn add_project(&mut self, project_name: String)
        requires
            old(self).wf(),
        ensures
            final(self).wf(),
            final(self).spec_has_project(project_name@),
            old(self).spec_same_except_project(*final(self), project_name@),
            old(self).spec_has_project(project_name@) ==> *final(self) == *old(self),
            !old(self).spec_has_project(project_name@) ==> ({
                let p = final(self).spec_project(project_name@);
                &&& p.packages@.len() == 0
                &&& p.repos@.len() == 0
                &&& p.rebuild == MockRebuildMode::Transitive
                &&& p.block == MockBlockMode::All
            }),
    {
        let ghost old_ps = self.projects@;
        let found = projs_find(&self.projects, &project_name);
        match found {
            Some(i) => {
                proof {
                    lemma_projs_index(old_ps, project_name@, i as int);
                }
            },
            None => {
                let slot = MockProjectSlot { name: project_name, project: MockProject::empty() };
                self.projects.push(slot);
                proof {
                    let qs = self.projects@;
                    let n0 = old_ps.len() as int;
                    let target = qs[n0].name@;
                    assert forall|i2: int, j2: int| 0 <= i2 < j2 < qs.len() implies qs[i2].name@
                        != qs[j2].name@ by {
                        if j2 < n0 {
                            assert(old_ps[i2].name@ != old_ps[j2].name@);
                        } else {
                            assert(old_ps[i2].name@ != target);
                        }
                    }
                    lemma_projs_index(qs, target, n0);
                    assert forall|n: Seq<char>| n != target implies #[trigger] projs_has(qs, n)
                        == projs_has(old_ps, n) by {
                        if projs_has(qs, n) {
                            let j = projs_index(qs, n);
                            assert(j < n0);
                            assert(old_ps[j].name@ == n);
                        }
                        if projs_has(old_ps, n) {
                            let j = projs_index(old_ps, n);
                            assert(qs[j].name@ == n);
                        }
                    }
                    assert forall|n: Seq<char>| n != target && #[trigger] projs_has(old_ps, n)
                        implies projs_at(qs, n) == projs_at(old_ps, n) by {
                        let j = projs_index(old_ps, n);
                        assert(qs[j].name@ == n);
                        lemma_projs_index(qs, n, j);
                        lemma_projs_index(old_ps, n, j);
                    }
                }
            },
        }
    }

    /// Removes the named project with everything in it; says whether one was
    /// there.
    pub fn delete_project(&mut self, project_name: &String) -> (removed: bool)
        requires
            old(self).wf(),
        ensures
            final(self).wf(),
            removed == old(self).spec_has_project(project_name@),
            !final(self).spec_has_project(project_name@),
            old(self).spec_same_except_project(*final(self), project_name@),
    {
        let ghost old_ps = self.projects@;
        let ghost target = project_name@;
        let found = projs_find(&self.projects, project_name);
        match found {
            Some(i) => {
                self.projects.remove(i);
                proof {
                    let qs = self.projects@;
                    assert forall|j: int| 0 <= j < qs.len() implies #[trigger] qs[j] == (if j < i {
                        old_ps[j]
                    } else {
                        old_ps[j + 1]
                    }) by {}
                    assert forall|i2: int, j2: int| 0 <= i2 < j2 < qs.len() implies qs[i2].name@
                        != qs[j2].name@ by {}
                    assert forall|n: Seq<char>| projs_has(qs, n) implies projs_has(old_ps, n) && n
                        != target by {
                        let j = projs_index(qs, n);
                        if j < i {
                            assert(old_ps[j].name@ == n);
                            lemma_projs_index(old_ps, n, j);
                        } else {
                            assert(old_ps[j + 1].name@ == n);
                            lemma_projs_index(old_ps, n, j + 1);
                        }
                        assert(old_ps[i as int].name@ == target);
                    }
                    assert forall|n: Seq<char>| n != target && #[trigger] projs_has(old_ps, n)
                        implies projs_has(qs, n) && projs_at(qs, n) == projs_at(old_ps, n) by {
                        let j = projs_index(old_ps, n);
                        lemma_projs_index(old_ps, n, j);
                        assert(j != i);
                        if j < i {
                            assert(qs[j].name@ == n);
                            lemma_projs_index(qs, n, j);
                        } else {
                            assert(qs[j - 1].name@ == n);
                            lemma_projs_index(qs, n, j - 1);
                        }
                    }
                }
                true
            },
            None => false,
        }
    }

    /// Sets the named project's rebuild and block modes.
    pub fn set_project_modes(
        &mut self,
        project_name: &String,
        rebuild: MockRebuildMode,
        block: MockBlockMode,
    )
        requires
            old(self).wf(),
            old(self).spec_has_project(project_name@),
        ensures
            final(self).wf(),
            old(self).spec_same_except_project(*final(self), project_name@),
            final(self).spec_has_project(project_name@),
            ({
                let oldproj = old(self).spec_project(project_name@);
                let newproj = final(self).spec_project(project_name@);
                &&& newproj.packages == oldproj.packages
                &&& newproj.repos == oldproj.repos
                &&& newproj.rebuild == rebuild
                &&& newproj.block == block
                &&& newproj.rebuild_status == oldproj.rebuild_status
            }),
    {
        let ghost old_self = *old(self);
        let proj = self.project_mut(project_name);
        proj.rebuild = rebuild;
        proj.block = block;
        proof {
            let i = projs_index(old_self.projects@, project_name@);
            lemma_projs_update_frame(old_self, *self, i);
            assert forall|j: int| 0 <= j < self.projects@.len() implies (
            #[trigger] self.projects@[j]).project.wf() by {
                if j != i {
                    assert(self.projects@[j] == old_self.projects@[j]);
                }
            }
        }
    }

    /// Creates a fresh package under the named project, replacing any
    /// package of that name.
    pub fn add_new_package(
        &mut self,
        project_name: &String,
        package_name: String,
        options: MockPackageOptions,
    )
        requires
            old(self).wf(),
            old(self).spec_has_project(project_name@),
        ensures
            final(self).wf(),
            old(self).spec_same_except_project(*final(self), project_name@),
            final(self).spec_has_project(project_name@),
            ({
                let oldproj = old(self).spec_project(project_name@);
                let newproj = final(self).spec_project(project_name@);
                &&& oldproj.spec_same_except_package(newproj, package_name@)
                &&& newproj.spec_has_package(package_name@)
                &&& spec_fresh_package(
                    newproj.spec_package(package_name@),
                    project_name@,
                    package_name@,
                    options,
                )
            }),
    {
        let ghost old_self = *old(self);
        let pkg = MockPackage::new_with_metadata(project_name, &package_name, options);
        let proj = self.project_mut(project_name);
        proj.insert_package(package_name, pkg);
        proof {
            let i = projs_index(old_self.projects@, project_name@);
            lemma_projs_update_frame(old_self, *self, i);
            assert forall|j: int| 0 <= j < self.projects@.len() implies (
            #[trigger] self.projects@[j]).project.wf() by {
                if j != i {
                    assert(self.projects@[j] == old_self.projects@[j]);
                }
            }
        }
    }

    /// Writes a new metadata blob and revision for the named package.
    pub fn set_package_metadata(
        &mut self,
        project_name: &String,
        package_name: &String,
        options: MockPackageOptions,
    )
        requires
            old(self).wf(),
            old(self).spec_has_project(project_name@),
            old(self).spec_project(project_name@).spec_has_package(package_name@),
        ensures
            final(self).wf(),
            old(self).spec_same_except_project(*final(self), project_name@),
            final(self).spec_has_project(project_name@),
            ({
                let oldproj = old(self).spec_project(project_name@);
                let newproj = final(self).spec_project(project_name@);
                &&& oldproj.spec_same_except_package(newproj, package_name@)
                &&& newproj.spec_has_package(package_name@)
                &&& ({
                    let oldp = oldproj.spec_package(package_name@);
                    let newp = newproj.spec_package(package_name@);
                    &&& newp.revisions == oldp.revisions
                    &&& newp.latest_vrevs == oldp.latest_vrevs
                    &&& newp.disabled == oldp.disabled
                    &&& newp.meta_revisions@.len() == oldp.meta_revisions@.len() + 1
                    &&& newp.meta_revisions@.drop_last() == oldp.meta_revisions@
                    &&& newp.meta_revisions@.last().options.srcmd5@ == options.meta_srcmd5@
                    &&& newp.meta_revisions@.last().options.time == options.time
                    &&& newp.meta_revisions@.last().options.user@ == options.user@
                    &&& newp.meta_revisions@.last().entries@.len() == 1
                    &&& newp.meta_revisions@.last().entries@[0].entry.md5@ == md5_hex_of(
                        crate::metaxml::spec_meta_bytes(
                            project_name@,
                            package_name@,
                            options.disabled@,
                        ),
                    )
                })
            }),
    {
        let ghost old_self = *old(self);
        let proj = self.project_mut(project_name);
        let pkg = get_package(proj, package_name);
        pkg.set_metadata(project_name, package_name, options);
        proof {
            let i = projs_index(old_self.projects@, project_name@);
            let oldproj = old_self.spec_project(project_name@);
            let j = pkgs_index(oldproj.packages@, package_name@);
            lemma_pkgs_update_frame(oldproj, self.projects@[i].project, j);
            lemma_projs_update_frame(old_self, *self, i);
            assert forall|j2: int| 0 <= j2 < self.projects@.len() implies (
            #[trigger] self.projects@[j2]).project.wf() by {
                if j2 != i {
                    assert(self.projects@[j2] == old_self.projects@[j2]);
                } else {
                    let np = self.projects@[i].project;
                    assert forall|k: int| 0 <= k < np.packages@.len() implies (
                    #[trigger] np.packages@[k]).package.wf() by {
                        if k != j {
                            assert(np.packages@[k] == oldproj.packages@[k]);
                        }
                    }
                }
            }
        }
    }

    /// Stores a blob in the named package and returns its key.
    pub fn add_package_files(
        &mut self,
        project_name: &String,
        package_name: &String,
        file: MockSourceFile,
    ) -> (key: MockSourceFileKey)
        requires
            old(self).wf(),
            old(self).spec_has_project(project_name@),
            old(self).spec_project(project_name@).spec_has_package(package_name@),
        ensures
            final(self).wf(),
            old(self).spec_same_except_project(*final(self), project_name@),
            final(self).spec_has_project(project_name@),
            key.path@ == file.path@,
            key.md5@ == md5_hex_of(file.contents@),
            ({
                let oldproj = old(self).spec_project(project_name@);
                let newproj = final(self).spec_project(project_name@);
                &&& oldproj.spec_same_except_package(newproj, package_name@)
                &&& newproj.spec_has_package(package_name@)
                &&& ({
                    let oldp = oldproj.spec_package(package_name@);
                    let newp = newproj.spec_package(package_name@);
                    &&& store_has(newp.files@, file.path@, md5_hex_of(file.contents@))
                    &&& store_contents(newp.files@, file.path@, md5_hex_of(file.contents@))
                        == file.contents@
                    &&& forall|p: Seq<char>, m: Seq<char>|
                        #[trigger] store_has(oldp.files@, p, m) ==> store_has(newp.files@, p, m)
                    &&& newp.revisions == oldp.revisions
                    &&& newp.meta_revisions == oldp.meta_revisions
                    &&& newp.latest_vrevs == oldp.latest_vrevs
                    &&& newp.disabled == oldp.disabled
                })
            }),
    {
        let ghost old_self = *old(self);
        let proj = self.project_mut(project_name);
        let pkg = get_package(proj, package_name);
        let key = pkg.add_file(file);
        proof {
            let i = projs_index(old_self.projects@, project_name@);
            let oldproj = old_self.spec_project(project_name@);
            let j = pkgs_index(oldproj.packages@, package_name@);
            lemma_pkgs_update_frame(oldproj, self.projects@[i].project, j);
            lemma_projs_update_frame(old_self, *self, i);
            assert forall|j2: int| 0 <= j2 < self.projects@.len() implies (
            #[trigger] self.projects@[j2]).project.wf() by {
                if j2 != i {
                    assert(self.projects@[j2] == old_self.projects@[j2]);
                } else {
                    let np = self.projects@[i].project;
                    assert forall|k: int| 0 <= k < np.packages@.len() implies (
                    #[trigger] np.packages@[k]).package.wf() by {
                        if k != j {
                            assert(np.packages@[k] == oldproj.packages@[k]);
                        }
                    }
                }
            }
        }
        key
    }

    /// Appends a source revision to the named package.
    pub fn add_package_revision(
        &mut self,
        project_name: &String,
        package_name: &String,
        options: MockRevisionOptions,
        entries: Vec<MockRevisionEntry>,
    ) -> (r: Result<(), MockApiError>)
        requires
            old(self).wf(),
            old(self).spec_has_project(project_name@),
            old(self).spec_project(project_name@).spec_has_package(package_name@),
            entries_unique(entries@),
            old(self).spec_project(project_name@).spec_package(
                package_name@,
            ).revisions@.len() < usize::MAX,
        ensures
            final(self).wf(),
            old(self).spec_same_except_project(*final(self), project_name@),
            final(self).spec_has_project(project_name@),
            ({
                let oldproj = old(self).spec_project(project_name@);
                let newproj = final(self).spec_project(project_name@);
                &&& oldproj.spec_same_except_package(newproj, package_name@)
                &&& newproj.spec_has_package(package_name@)
                &&& ({
                    let oldp = oldproj.spec_package(package_name@);
                    let newp = newproj.spec_package(package_name@);
                    &&& (entries_in_store(entries@, oldp.files@) ==> r is Ok)
                    &&& (r is Ok ==> entries_in_store(entries@, oldp.files@))
                    &&& (r matches Err(e) ==> e is DanglingReference && newp == oldp)
                    &&& (r is Ok ==> spec_revision_appended(oldp, newp, options, entries@))
                })
            }),
    {
        let ghost old_self = *old(self);
        let proj = self.project_mut(project_name);
        let pkg = get_package(proj, package_name);
        let r = pkg.add_revision(options, entries);
        proof {
            let i = projs_index(old_self.projects@, project_name@);
            let oldproj = old_self.spec_project(project_name@);
            let j = pkgs_index(oldproj.packages@, package_name@);
            lemma_pkgs_update_frame(oldproj, self.projects@[i].project, j);
            lemma_projs_update_frame(old_self, *self, i);
            assert forall|j2: int| 0 <= j2 < self.projects@.len() implies (
            #[trigger] self.projects@[j2]).project.wf() by {
                if j2 != i {
                    assert(self.projects@[j2] == old_self.projects@[j2]);
                } else {
                    let np = self.projects@[i].project;
                    assert forall|k: int| 0 <= k < np.packages@.len() implies (
                    #[trigger] np.packages@[k]).package.wf() by {
                        if k != j {
                            assert(np.packages@[k] == oldproj.packages@[k]);
                        }
                    }
                }
            }
        }
        r
    }

    /// Branches a package of one project into another package, which is
    /// created or overwritten in the named target project.
    pub fn branch(
        &mut self,
        origin_project_name: String,
        origin_package_name: String,
        branched_project_name: &String,
        branched_package_name: String,
        options: MockBranchOptions,
    )
        requires
            old(self).wf(),
            old(self).spec_has_project(origin_project_name@),
            old(self).spec_project(origin_project_name@).spec_has_package(origin_package_name@),
            old(self).spec_has_project(branched_project_name@),
        ensures
            final(self).wf(),
            old(self).spec_same_except_project(*final(self), branched_project_name@),
            final(self).spec_has_project(branched_project_name@),
            ({
                let oldproj = old(self).spec_project(branched_project_name@);
                let newproj = final(self).spec_project(branched_project_name@);
                let origin = old(self).spec_project(origin_project_name@).spec_package(
                    origin_package_name@,
                );
                &&& oldproj.spec_same_except_package(newproj, branched_package_name@)
                &&& newproj.spec_has_package(branched_package_name@)
                &&& spec_branched_package(
                    newproj.spec_package(branched_package_name@),
                    origin_project_name@,
                    origin_package_name@,
                    Some(origin),
                    branched_project_name@,
                    branched_package_name@,
                    options,
                )
            }),
    {
        let ghost old_self = *old(self);
        let pkg = {
            let origin_proj = match self.project_ref(&origin_project_name) {
                Some(p) => p,
                None => {
                    proof {
                        assert(false);
                    }
                    unreached()
                },
            };
            let origin_pkg = match origin_proj.package(&origin_package_name) {
                Some(p) => p,
                None => {
                    proof {
                        assert(false);
                    }
                    unreached()
                },
            };
            MockPackage::new_branched(
                origin_project_name,
                origin_package_name,
                Some(origin_pkg),
                branched_project_name,
                &branched_package_name,
                options,
            )
        };
        let proj = self.project_mut(branched_project_name);
        proj.insert_package(branched_package_name, pkg);
        proof {
            let i = projs_index(old_self.projects@, branched_project_name@);
            lemma_projs_update_frame(old_self, *self, i);
            assert forall|j: int| 0 <= j < self.projects@.len() implies (
            #[trigger] self.projects@[j]).project.wf() by {
                if j != i {
                    assert(self.projects@[j] == old_self.projects@[j]);
                }
            }
        }
    }
}

} // verus!
