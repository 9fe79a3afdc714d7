//! Administration of repository cells: registering a repository under an
//! architecture, and recording the statuses, binaries, logs and history
//! that the build endpoints serve for the packages built in each cell.

use vstd::prelude::*;

use crate::builds::MockBuildStatus;
use crate::codes::MockRepositoryCode;
use crate::project::arches_find;
use crate::project::arches_has;
use crate::project::arches_index;
use crate::project::lemma_arches_index;
use crate::project::lemma_repos_index;
use crate::project::repos_find;
use crate::project::repos_has;
use crate::project::repos_index;
use crate::project::MockArchCell;
use crate::project::MockProject;
use crate::project::MockRepository;
use crate::project::MockRepositorySlot;
use crate::registry::lemma_projs_update_frame;
use crate::registry::projs_index;
use crate::registry::ObsMock;

verus! {

impl MockProject {
    /// Registers the repository cell of the given name and architecture with
    /// the given code, creating it empty where it does not exist and only
    /// setting its code where it does. Packages and every other cell are
    /// untouched.
    pub fn add_or_update_repository(
        &mut self,
        repo_name: String,
        arch: String,
        code: MockRepositoryCode,
    )
        requires
            old(self).wf(),
        ensures
            final(self).wf(),
            final(self).packages == old(self).packages,
            final(self).rebuild == old(self).rebuild,
            final(self).block == old(self).block,
            final(self).rebuild_status == old(self).rebuild_status,
            repos_has(final(self).repos@, repo_name@),
            ({
                let s = final(self).repos@[repos_index(final(self).repos@, repo_name@)];
                &&& arches_has(s.arches@, arch@)
                &&& ({
                    let c = s.arches@[arches_index(s.arches@, arch@)];
                    &&& c.repo.code == code
                    &&& (spec_had_cell(*old(self), repo_name@, arch@) ==> c.repo.packages@
                        == spec_old_cell(*old(self), repo_name@, arch@).packages@)
                    &&& (!spec_had_cell(*old(self), repo_name@, arch@) ==> c.repo.packages@.len()
                        == 0)
                })
            }),
            forall|i: int|
                0 <= i < final(self).repos@.len() && (#[trigger] final(self).repos@[i]).name@
                    != repo_name@ ==> i < old(self).repos@.len() && final(self).repos@[i] == old(
                    self,
                ).repos@[i],
            forall|n: Seq<char>|
                n != repo_name@ ==> #[trigger] repos_has(final(self).repos@, n) == repos_has(
                    old(self).repos@,
                    n,
                ),
            repos_has(old(self).repos@, repo_name@) ==> ({
                let sa = old(self).repos@[repos_index(old(self).repos@, repo_name@)];
                let sb = final(self).repos@[repos_index(final(self).repos@, repo_name@)];
                &&& repos_index(final(self).repos@, repo_name@) == repos_index(
                    old(self).repos@,
                    repo_name@,
                )
                &&& sb.name == sa.name
                &&& forall|j: int|
                    0 <= j < sb.arches@.len() && (#[trigger] sb.arches@[j]).arch@ != arch@ ==> j
                        < sa.arches@.len() && sb.arches@[j] == sa.arches@[j]
            }),
    {
        let ghost old_self = *old(self);
        let found = repos_find(&self.repos, &repo_name);
        match found {
            Some(i) => {
                proof {
                    lemma_repos_index(self.repos@, repo_name@, i as int);
                }
                let found_arch = arches_find(&self.repos[i].arches, &arch);
                match found_arch {
                    Some(j) => {
                        proof {
                            lemma_arches_index(self.repos@[i as int].arches@, arch@, j as int);
                        }
                        self.repos[i].arches[j].repo.code = code;
                        proof {
                            lemma_repos_index(self.repos@, repo_name@, i as int);
                            lemma_arches_index(self.repos@[i as int].arches@, arch@, j as int);
                            assert forall|n: Seq<char>| n != repo_name@ implies #[trigger] repos_has(
                                self.repos@,
                                n,
                            ) == repos_has(old_self.repos@, n) by {
                                if repos_has(self.repos@, n) {
                                    let k = repos_index(self.repos@, n);
                                    assert(old_self.repos@[k].name@ == n);
                                }
                                if repos_has(old_self.repos@, n) {
                                    let k = repos_index(old_self.repos@, n);
                                    assert(self.repos@[k].name@ == n);
                                }
                            }
                        }
                    },
                    None => {
                        let cell = MockArchCell {
                            arch,
                            repo: MockRepository { code, packages: Vec::new() },
                        };
                        self.repos[i].arches.push(cell);
                        proof {
                            lemma_repos_index(self.repos@, repo_name@, i as int);
                            let ars = self.repos@[i as int].arches@;
                            let n0 = old_self.repos@[i as int].arches@.len() as int;
                            assert forall|a: int, b: int| 0 <= a < b < ars.len() implies
                                ars[a].arch@ != ars[b].arch@ by {
                                if b < n0 {
                                    assert(old_self.repos@[i as int].arches@[a].arch@
                                        != old_self.repos@[i as int].arches@[b].arch@);
                                } else {
                                    assert(!crate::project::arches_has(
                                        old_self.repos@[i as int].arches@,
                                        ars[n0].arch@,
                                    ));
                                    assert(old_self.repos@[i as int].arches@[a].arch@
                                        != ars[n0].arch@);
                                }
                            }
                            lemma_arches_index(ars, ars[n0].arch@, n0);
                            assert forall|n: Seq<char>| n != repo_name@ implies #[trigger] repos_has(
                                self.repos@,
                                n,
                            ) == repos_has(old_self.repos@, n) by {
                                if repos_has(self.repos@, n) {
                                    let k = repos_index(self.repos@, n);
                                    assert(old_self.repos@[k].name@ == n);
                                }
                                if repos_has(old_self.repos@, n) {
                                    let k = repos_index(old_self.repos@, n);
                                    assert(self.repos@[k].name@ == n);
                                }
                            }
                        }
                    },
                }
            },
            None => {
                let mut arches: Vec<MockArchCell> = Vec::new();
                arches.push(MockArchCell { arch, repo: MockRepository { code, packages: Vec::new() } });
                let slot = MockRepositorySlot { name: repo_name, arches };
                self.repos.push(slot);
                proof {
                    let rs = self.repos@;
                    let n0 = old_self.repos@.len() as int;
                    let target = rs[n0].name@;
                    assert forall|a: int, b: int| 0 <= a < b < rs.len() implies rs[a].name@
                        != rs[b].name@ by {
                        if b < n0 {
                            assert(old_self.repos@[a].name@ != old_self.repos@[b].name@);
                        } else {
                            assert(old_self.repos@[a].name@ != target);
                        }
                    }
                    lemma_repos_index(rs, target, n0);
                    lemma_arches_index(rs[n0].arches@, rs[n0].arches@[0].arch@, 0);
                    assert forall|n: Seq<char>| n != target implies #[trigger] repos_has(rs, n)
                        == repos_has(old_self.repos@, n) by {
                        if repos_has(rs, n) {
                            let k = repos_index(rs, n);
                            assert(k < n0);
                            assert(old_self.repos@[k].name@ == n);
                        }
                        if repos_has(old_self.repos@, n) {
                            let k = repos_index(old_self.repos@, n);
                            assert(rs[k].name@ == n);
                        }
                    }
                }
            },
        }
    }
}

/// One change to a package's build results in a repository cell.
#[derive(Debug)]
pub enum MockBuildResultUpdate {
    /// Set the build status.
    Status(MockBuildStatus),
    /// Replace the built binaries.
    Binaries(Vec<crate::builds::MockNamedBinary>),
    /// Record a finished build's log; a successful one is also kept as the
    /// latest successful log.
    CompletedLog { log: crate::builds::MockBuildLog, success: bool },
    /// Append one line of build history.
    HistoryEntry(crate::builds::MockBuildHistoryEntry),
}

/// How an existing build-results record changes under an update: the named
/// field moves, everything else stands.
pub open spec fn spec_record_updated(
    old_rec: crate::builds::MockRepositoryPackage,
    rec: crate::builds::MockRepositoryPackage,
    u: MockBuildResultUpdate,
) -> bool {
    &&& rec.name == old_rec.name
    &&& match u {
        MockBuildResultUpdate::Status(st) => {
            &&& rec.status == st
            &&& rec.binaries == old_rec.binaries
            &&& rec.latest_log == old_rec.latest_log
            &&& rec.latest_successful_log == old_rec.latest_successful_log
            &&& rec.history == old_rec.history
        },
        MockBuildResultUpdate::Binaries(b) => {
            &&& rec.binaries == b
            &&& rec.status == old_rec.status
            &&& rec.latest_log == old_rec.latest_log
            &&& rec.latest_successful_log == old_rec.latest_successful_log
            &&& rec.history == old_rec.history
        },
        MockBuildResultUpdate::CompletedLog { log, success } => {
            &&& rec.latest_log == Some(log)
            &&& rec.latest_successful_log == (if success {
                Some(log)
            } else {
                old_rec.latest_successful_log
            })
            &&& rec.status == old_rec.status
            &&& rec.binaries == old_rec.binaries
            &&& rec.history == old_rec.history
        },
        MockBuildResultUpdate::HistoryEntry(e) => {
            &&& rec.history@ == old_rec.history@.push(e)
            &&& rec.status == old_rec.status
            &&& rec.binaries == old_rec.binaries
            &&& rec.latest_log == old_rec.latest_log
            &&& rec.latest_successful_log == old_rec.latest_successful_log
        },
    }
}

/// What a freshly created record holds under an update: the named field,
/// and nothing else yet.
pub open spec fn spec_record_fresh(
    rec: crate::builds::MockRepositoryPackage,
    name: Seq<char>,
    u: MockBuildResultUpdate,
) -> bool {
    &&& rec.name@ == name
    &&& match u {
        MockBuildResultUpdate::Status(st) => {
            &&& rec.status == st
            &&& rec.binaries@.len() == 0
            &&& rec.latest_log is None
            &&& rec.latest_successful_log is None
            &&& rec.history@.len() == 0
        },
        MockBuildResultUpdate::Binaries(b) => {
            &&& rec.binaries == b
            &&& rec.status.code == crate::codes::MockPackageCode::Unknown
            &&& !rec.status.dirty
            &&& rec.latest_log is None
            &&& rec.latest_successful_log is None
            &&& rec.history@.len() == 0
        },
        MockBuildResultUpdate::CompletedLog { log, success } => {
            &&& rec.latest_log == Some(log)
            &&& rec.latest_successful_log == (if success {
                Some(log)
            } else {
                None
            })
            &&& rec.status.code == crate::codes::MockPackageCode::Unknown
            &&& !rec.status.dirty
            &&& rec.binaries@.len() == 0
            &&& rec.history@.len() == 0
        },
        MockBuildResultUpdate::HistoryEntry(e) => {
            &&& rec.history@.len() == 1
            &&& rec.history@[0] == e
            &&& rec.status.code == crate::codes::MockPackageCode::Unknown
            &&& !rec.status.dirty
            &&& rec.binaries@.len() == 0
            &&& rec.latest_log is None
            &&& rec.latest_successful_log is None
        },
    }
}

impl MockProject {
    /// Applies one change to a package's build results in one repository
    /// cell, creating the record where the cell has none yet. Every other
    /// record, cell and repository is untouched.
    pub fn update_repo_package(
        &mut self,
        repo_name: &String,
        arch: &String,
        package_name: String,
        update: MockBuildResultUpdate,
    )
        requires
            old(self).wf(),
            spec_had_cell(*old(self), repo_name@, arch@),
        ensures
            final(self).wf(),
            final(self).packages == old(self).packages,
            final(self).rebuild == old(self).rebuild,
            final(self).block == old(self).block,
            final(self).rebuild_status == old(self).rebuild_status,
            final(self).repos@.len() == old(self).repos@.len(),
            forall|i: int|
                0 <= i < final(self).repos@.len() && (#[trigger] final(self).repos@[i]).name@
                    != repo_name@ ==> final(self).repos@[i] == old(self).repos@[i],
            spec_had_cell(*final(self), repo_name@, arch@),
            ({
                let ri = repos_index(old(self).repos@, repo_name@);
                let sa = old(self).repos@[ri];
                let sb = final(self).repos@[ri];
                &&& repos_index(final(self).repos@, repo_name@) == ri
                &&& sb.name == sa.name
                &&& sb.arches@.len() == sa.arches@.len()
                &&& forall|j: int|
                    0 <= j < sb.arches@.len() && (#[trigger] sb.arches@[j]).arch@ != arch@
                        ==> sb.arches@[j] == sa.arches@[j]
                &&& ({
                    let aj = crate::project::arches_index(sa.arches@, arch@);
                    let ca = sa.arches@[aj].repo;
                    let cb = sb.arches@[aj].repo;
                    &&& crate::project::arches_index(sb.arches@, arch@) == aj
                    &&& sb.arches@[aj].arch == sa.arches@[aj].arch
                    &&& cb.code == ca.code
                    &&& crate::project::cellpkgs_has(cb.packages@, package_name@)
                    &&& ({
                        let rec = crate::project::cellpkgs_at(cb.packages@, package_name@);
                        &&& (crate::project::cellpkgs_has(ca.packages@, package_name@)
                            ==> spec_record_updated(
                            crate::project::cellpkgs_at(ca.packages@, package_name@),
                            rec,
                            update,
                        ))
                        &&& (!crate::project::cellpkgs_has(ca.packages@, package_name@)
                            ==> spec_record_fresh(rec, package_name@, update))
                    })
                    &&& forall|n: Seq<char>|
                        n != package_name@ ==> #[trigger] crate::project::cellpkgs_has(
                            cb.packages@,
                            n,
                        ) == crate::project::cellpkgs_has(ca.packages@, n)
                    &&& forall|n: Seq<char>|
                        n != package_name@ && #[trigger] crate::project::cellpkgs_has(
                            ca.packages@,
                            n,
                        ) ==> crate::project::cellpkgs_at(cb.packages@, n)
                            == crate::project::cellpkgs_at(ca.packages@, n)
                })
            }),
    {
        let ghost old_self = *old(self);
        let ri = match repos_find(&self.repos, repo_name) {
            Some(i) => i,
            None => {
                proof {
                    assert(false);
                }
                unreached()
            },
        };
        proof {
            lemma_repos_index(self.repos@, repo_name@, ri as int);
        }
        let aj = match arches_find(&self.repos[ri].arches, arch) {
            Some(j) => j,
            None => {
                proof {
                    assert(false);
                }
                unreached()
            },
        };
        proof {
            lemma_arches_index(self.repos@[ri as int].arches@, arch@, aj as int);
        }
        let ghost old_ps = self.repos@[ri as int].arches@[aj as int].repo.packages@;
        let found = crate::project::cellpkgs_find(
            &self.repos[ri].arches[aj].repo.packages,
            &package_name,
        );
        match found {
            Some(k) => {
                proof {
                    crate::project::lemma_cellpkgs_index(old_ps, package_name@, k as int);
                }
                match update {
                    MockBuildResultUpdate::Status(st) => {
                        self.repos[ri].arches[aj].repo.packages[k].status = st;
                    },
                    MockBuildResultUpdate::Binaries(b) => {
                        self.repos[ri].arches[aj].repo.packages[k].binaries = b;
                    },
                    MockBuildResultUpdate::CompletedLog { log, success } => {
                        if success {
                            self.repos[ri].arches[aj].repo.packages[k].latest_successful_log =
                                Some(log.clone());
                        }
                        self.repos[ri].arches[aj].repo.packages[k].latest_log = Some(log);
                    },
                    MockBuildResultUpdate::HistoryEntry(e) => {
                        self.repos[ri].arches[aj].repo.packages[k].history.push(e);
                    },
                }
                proof {
                    let np = self.repos@[ri as int].arches@[aj as int].repo.packages@;
                    assert forall|a: int, b: int| 0 <= a < b < np.len() implies np[a].name@
                        != np[b].name@ by {
                        assert(old_ps[a].name@ != old_ps[b].name@);
                    }
                    crate::project::lemma_cellpkgs_index(np, package_name@, k as int);
                    assert forall|n: Seq<char>| n != package_name@ implies #[trigger]
                    crate::project::cellpkgs_has(np, n) == crate::project::cellpkgs_has(
                        old_ps,
                        n,
                    ) by {
                        if crate::project::cellpkgs_has(np, n) {
                            let j = crate::project::cellpkgs_index(np, n);
                            assert(old_ps[j].name@ == n);
                        }
                        if crate::project::cellpkgs_has(old_ps, n) {
                            let j = crate::project::cellpkgs_index(old_ps, n);
                            assert(np[j].name@ == n);
                        }
                    }
                    assert forall|n: Seq<char>|
                        n != package_name@ && #[trigger] crate::project::cellpkgs_has(old_ps, n)
                        implies crate::project::cellpkgs_at(np, n)
                        == crate::project::cellpkgs_at(old_ps, n) by {
                        let j = crate::project::cellpkgs_index(old_ps, n);
                        assert(j != k);
                        assert(np[j].name@ == n);
                        crate::project::lemma_cellpkgs_index(np, n, j);
                        crate::project::lemma_cellpkgs_index(old_ps, n, j);
                    }
                    lemma_repos_index(self.repos@, repo_name@, ri as int);
                    lemma_arches_index(self.repos@[ri as int].arches@, arch@, aj as int);
                }
            },
            None => {
                let mut rec = crate::builds::MockRepositoryPackage::empty(package_name);
                match update {
                    MockBuildResultUpdate::Status(st) => {
                        rec.status = st;
                    },
                    MockBuildResultUpdate::Binaries(b) => {
                        rec.binaries = b;
                    },
                    MockBuildResultUpdate::CompletedLog { log, success } => {
                        if success {
                            rec.latest_successful_log = Some(log.clone());
                        }
                        rec.latest_log = Some(log);
                    },
                    MockBuildResultUpdate::HistoryEntry(e) => {
                        rec.history.push(e);
                    },
                }
                self.repos[ri].arches[aj].repo.packages.push(rec);
                proof {
                    let np = self.repos@[ri as int].arches@[aj as int].repo.packages@;
                    let n0 = old_ps.len() as int;
                    assert forall|a: int, b: int| 0 <= a < b < np.len() implies np[a].name@
                        != np[b].name@ by {
                        if b < n0 {
                            assert(old_ps[a].name@ != old_ps[b].name@);
                        } else {
                            assert(!crate::project::cellpkgs_has(old_ps, np[n0].name@));
                            assert(old_ps[a].name@ != np[n0].name@);
                        }
                    }
                    crate::project::lemma_cellpkgs_index(np, np[n0].name@, n0);
                    assert forall|n: Seq<char>| n != np[n0].name@ implies #[trigger]
                    crate::project::cellpkgs_has(np, n) == crate::project::cellpkgs_has(
                        old_ps,
                        n,
                    ) by {
                        if crate::project::cellpkgs_has(np, n) {
                            let j = crate::project::cellpkgs_index(np, n);
                            assert(j < n0);
                            assert(old_ps[j].name@ == n);
                        }
                        if crate::project::cellpkgs_has(old_ps, n) {
                            let j = crate::project::cellpkgs_index(old_ps, n);
                            assert(np[j].name@ == n);
                        }
                    }
                    assert forall|n: Seq<char>|
                        n != np[n0].name@ && #[trigger] crate::project::cellpkgs_has(old_ps, n)
                        implies crate::project::cellpkgs_at(np, n)
                        == crate::project::cellpkgs_at(old_ps, n) by {
                        let j = crate::project::cellpkgs_index(old_ps, n);
                        assert(np[j].name@ == n);
                        crate::project::lemma_cellpkgs_index(np, n, j);
                        crate::project::lemma_cellpkgs_index(old_ps, n, j);
                    }
                    lemma_repos_index(self.repos@, repo_name@, ri as int);
                    lemma_arches_index(self.repos@[ri as int].arches@, arch@, aj as int);
                }
            },
        }
    }
}

/// Whether the project had a cell under the given repository and
/// architecture.
pub open spec fn spec_had_cell(p: MockProject, repo: Seq<char>, arch: Seq<char>) -> bool {
    repos_has(p.repos@, repo) && arches_has(
        p.repos@[repos_index(p.repos@, repo)].arches@,
        arch,
    )
}

/// The cell the project had under the given repository and architecture.
pub open spec fn spec_old_cell(p: MockProject, repo: Seq<char>, arch: Seq<char>) -> MockRepository {
    let s = p.repos@[repos_index(p.repos@, repo)];
    s.arches@[arches_index(s.arches@, arch)].repo
}

/// Exactly one build-results record of one cell changed, as the update
/// says; every other record of that cell is kept.
pub open spec fn spec_one_record_changed(
    oldproj: MockProject,
    newproj: MockProject,
    repo: Seq<char>,
    arch: Seq<char>,
    package: Seq<char>,
    u: MockBuildResultUpdate,
) -> bool {
    let ca = spec_old_cell(oldproj, repo, arch);
    let cb = spec_old_cell(newproj, repo, arch);
    &&& cb.code == ca.code
    &&& crate::project::cellpkgs_has(cb.packages@, package)
    &&& ({
        let rec = crate::project::cellpkgs_at(cb.packages@, package);
        &&& (crate::project::cellpkgs_has(ca.packages@, package) ==> spec_record_updated(
            crate::project::cellpkgs_at(ca.packages@, package),
            rec,
            u,
        ))
        &&& (!crate::project::cellpkgs_has(ca.packages@, package) ==> spec_record_fresh(
            rec,
            package,
            u,
        ))
    })
    &&& forall|n: Seq<char>|
        n != package ==> #[trigger] crate::project::cellpkgs_has(cb.packages@, n)
            == crate::project::cellpkgs_has(ca.packages@, n)
    &&& forall|n: Seq<char>|
        n != package && #[trigger] crate::project::cellpkgs_has(ca.packages@, n)
            ==> crate::project::cellpkgs_at(cb.packages@, n) == crate::project::cellpkgs_at(
            ca.packages@,
            n,
        )
}

impl ObsMock {
    /// Registers a repository cell in the named project.
    pub fn add_or_update_repository(
        &mut self,
        project_name: &String,
        repo_name: String,
        arch: String,
        code: MockRepositoryCode,
    )
        requires
            old(self).wf(),
            old(self).spec_has_project(project_name@),
        ensures
            final(self).wf(),
            old(self).spec_same_except_project(*final(self), project_name@),
            final(self).spec_has_project(project_name@),
            ({
                let oldproj = old(self).spec_project(project_name@);
                let newproj = final(self).spec_project(project_name@);
                &&& newproj.packages == oldproj.packages
                &&& newproj.rebuild == oldproj.rebuild
                &&& newproj.block == oldproj.block
                &&& newproj.rebuild_status == oldproj.rebuild_status
                &&& repos_has(newproj.repos@, repo_name@)
                &&& ({
                    let s = newproj.repos@[repos_index(newproj.repos@, repo_name@)];
                    &&& arches_has(s.arches@, arch@)
                    &&& s.arches@[arches_index(s.arches@, arch@)].repo.code == code
                })
            }),
    {
        let ghost old_self = *old(self);
        let proj = self.project_mut(project_name);
        proj.add_or_update_repository(repo_name, arch, code);
        proof {
            let i = projs_index(old_self.projects@, project_name@);
            lemma_projs_update_frame(old_self, *self, i);
            assert forall|j: int| 0 <= j < self.projects@.len() implies (
            #[trigger] self.projects@[j]).project.wf() by {
                if j != i {
                    assert(self.projects@[j] == old_self.projects@[j]);
                }
            }
        }
    }

    /// Records a package's build status in one repository cell of the named
    /// project.
    pub fn set_package_build_status(
        &mut self,
        project_name: &String,
        repo_name: &String,
        arch: &String,
        package_name: String,
        status: MockBuildStatus,
    )
        requires
            old(self).wf(),
            old(self).spec_has_project(project_name@),
            old(self).spec_project(project_name@).spec_has_package(package_name@),
            spec_had_cell(old(self).spec_project(project_name@), repo_name@, arch@),
        ensures
            final(self).wf(),
            old(self).spec_same_except_project(*final(self), project_name@),
            final(self).spec_has_project(project_name@),
            ({
                let oldproj = old(self).spec_project(project_name@);
                let newproj = final(self).spec_project(project_name@);
                &&& newproj.packages == oldproj.packages
                &&& newproj.rebuild == oldproj.rebuild
                &&& newproj.block == oldproj.block
                &&& newproj.rebuild_status == oldproj.rebuild_status
                &&& spec_had_cell(newproj, repo_name@, arch@)
                &&& ({
                    let ca = spec_old_cell(oldproj, repo_name@, arch@);
                    let cb = spec_old_cell(newproj, repo_name@, arch@);
                    &&& cb.code == ca.code
                    &&& crate::project::cellpkgs_has(cb.packages@, package_name@)
                    &&& crate::project::cellpkgs_at(cb.packages@, package_name@).status == status
                    &&& forall|n: Seq<char>|
                        n != package_name@ ==> #[trigger] crate::project::cellpkgs_has(
                            cb.packages@,
                            n,
                        ) == crate::project::cellpkgs_has(ca.packages@, n)
                    &&& forall|n: Seq<char>|
                        n != package_name@ && #[trigger] crate::project::cellpkgs_has(
                            ca.packages@,
                            n,
                        ) ==> crate::project::cellpkgs_at(cb.packages@, n)
                            == crate::project::cellpkgs_at(ca.packages@, n)
                })
            }),
    {
        let ghost old_self = *old(self);
        let proj = self.project_mut(project_name);
        proj.update_repo_package(
            repo_name,
            arch,
            package_name,
            MockBuildResultUpdate::Status(status),
        );
        proof {
            let i = projs_index(old_self.projects@, project_name@);
            lemma_projs_update_frame(old_self, *self, i);
            assert forall|j: int| 0 <= j < self.projects@.len() implies (
            #[trigger] self.projects@[j]).project.wf() by {
                if j != i {
                    assert(self.projects@[j] == old_self.projects@[j]);
                }
            }
        }
    }

    /// Replaces a package's built binaries in one repository cell of the
    /// named project.
    pub fn set_package_binaries(
        &mut self,
        project_name: &String,
        repo_name: &String,
        arch: &String,
        package_name: String,
        binaries: Vec<crate::builds::MockNamedBinary>,
    )
        requires
            old(self).wf(),
            old(self).spec_has_project(project_name@),
            old(self).spec_project(project_name@).spec_has_package(package_name@),
            spec_had_cell(old(self).spec_project(project_name@), repo_name@, arch@),
        ensures
            final(self).wf(),
            old(self).spec_same_except_project(*final(self), project_name@),
            final(self).spec_has_project(project_name@),
            ({
                let oldproj = old(self).spec_project(project_name@);
                let newproj = final(self).spec_project(project_name@);
                &&& newproj.packages == oldproj.packages
                &&& newproj.rebuild == oldproj.rebuild
                &&& newproj.block == oldproj.block
                &&& newproj.rebuild_status == oldproj.rebuild_status
                &&& spec_had_cell(newproj, repo_name@, arch@)
                &&& spec_one_record_changed(
                    oldproj,
                    newproj,
                    repo_name@,
                    arch@,
                    package_name@,
                    MockBuildResultUpdate::Binaries(binaries),
                )
            }),
    {
        let ghost old_self = *old(self);
        let proj = self.project_mut(project_name);
        proj.update_repo_package(
            repo_name,
            arch,
            package_name,
            MockBuildResultUpdate::Binaries(binaries),
        );
        proof {
            let i = projs_index(old_self.projects@, project_name@);
            lemma_projs_update_frame(old_self, *self, i);
            assert forall|j: int| 0 <= j < self.projects@.len() implies (
            #[trigger] self.projects@[j]).project.wf() by {
                if j != i {
                    assert(self.projects@[j] == old_self.projects@[j]);
                }
            }
        }
    }

    /// Records a finished build's log for a package in one repository cell;
    /// a successful build's log is also kept as the latest successful one.
    pub fn add_completed_build_log(
        &mut self,
        project_name: &String,
        repo_name: &String,
        arch: &String,
        package_name: String,
        log: crate::builds::MockBuildLog,
        success: bool,
    )
        requires
            old(self).wf(),
            old(self).spec_has_project(project_name@),
            old(self).spec_project(project_name@).spec_has_package(package_name@),
            spec_had_cell(old(self).spec_project(project_name@), repo_name@, arch@),
        ensures
            final(self).wf(),
            old(self).spec_same_except_project(*final(self), project_name@),
            final(self).spec_has_project(project_name@),
            ({
                let oldproj = old(self).spec_project(project_name@);
                let newproj = final(self).spec_project(project_name@);
                &&& newproj.packages == oldproj.packages
                &&& newproj.rebuild == oldproj.rebuild
                &&& newproj.block == oldproj.block
                &&& newproj.rebuild_status == oldproj.rebuild_status
                &&& spec_had_cell(newproj, repo_name@, arch@)
                &&& spec_one_record_changed(
                    oldproj,
                    newproj,
                    repo_name@,
                    arch@,
                    package_name@,
                    MockBuildResultUpdate::CompletedLog { log, success },
                )
            }),
    {
        let ghost old_self = *old(self);
        let proj = self.project_mut(project_name);
        proj.update_repo_package(
            repo_name,
            arch,
            package_name,
            MockBuildResultUpdate::CompletedLog { log, success },
        );
        proof {
            let i = projs_index(old_self.projects@, project_name@);
            lemma_projs_update_frame(old_self, *self, i);
            assert forall|j: int| 0 <= j < self.projects@.len() implies (
            #[trigger] self.projects@[j]).project.wf() by {
                if j != i {
                    assert(self.projects@[j] == old_self.projects@[j]);
                }
            }
        }
    }

    /// Appends one line of build history for a package in one repository
    /// cell of the named project.
    pub fn add_build_history(
        &mut self,
        project_name: &String,
        repo_name: &String,
        arch: &String,
        package_name: String,
        entry: crate::builds::MockBuildHistoryEntry,
    )
        requires
            old(self).wf(),
            old(self).spec_has_project(project_name@),
            old(self).spec_project(project_name@).spec_has_package(package_name@),
            spec_had_cell(old(self).spec_project(project_name@), repo_name@, arch@),
        ensures
            final(self).wf(),
            old(self).spec_same_except_project(*final(self), project_name@),
            final(self).spec_has_project(project_name@),
            ({
                let oldproj = old(self).spec_project(project_name@);
                let newproj = final(self).spec_project(project_name@);
                &&& newproj.packages == oldproj.packages
                &&& newproj.rebuild == oldproj.rebuild
                &&& newproj.block == oldproj.block
                &&& newproj.rebuild_status == oldproj.rebuild_status
                &&& spec_had_cell(newproj, repo_name@, arch@)
                &&& spec_one_record_changed(
                    oldproj,
                    newproj,
                    repo_name@,
                    arch@,
                    package_name@,
                    MockBuildResultUpdate::HistoryEntry(entry),
                )
            }),
    {
        let ghost old_self = *old(self);
        let proj = self.project_mut(project_name);
        proj.update_repo_package(
            repo_name,
            arch,
            package_name,
            MockBuildResultUpdate::HistoryEntry(entry),
        );
        proof {
            let i = projs_index(old_self.projects@, project_name@);
            lemma_projs_update_frame(old_self, *self, i);
            assert forall|j: int| 0 <= j < self.projects@.len() implies (
            #[trigger] self.projects@[j]).project.wf() by {
                if j != i {
                    assert(self.projects@[j] == old_self.projects@[j]);
                }
            }
        }
    }

    /// The build status one repository cell reports for a package; a
    /// package never built there reports a clean unknown status.
    pub fn package_build_status(
        &self,
        project_name: &String,
        repo_name: &String,
        arch: &String,
        package_name: &String,
    ) -> (r: Result<MockBuildStatus, crate::errors::MockApiError>)
        requires
            self.wf(),
        ensures
            match r {
                Ok(st) => {
                    &&& self.spec_has_project(project_name@)
                    &&& self.spec_project(project_name@).spec_has_package(package_name@)
                    &&& spec_had_cell(self.spec_project(project_name@), repo_name@, arch@)
                    &&& ({
                        let cell = spec_old_cell(
                            self.spec_project(project_name@),
                            repo_name@,
                            arch@,
                        );
                        if crate::project::cellpkgs_has(cell.packages@, package_name@) {
                            st == crate::project::cellpkgs_at(cell.packages@, package_name@).status
                        } else {
                            st.code == crate::codes::MockPackageCode::Unknown && !st.dirty
                        }
                    })
                },
                Err(e) => match e {
                    crate::errors::MockApiError::UnknownProject { project } => project@
                        == project_name@ && !self.spec_has_project(project_name@),
                    crate::errors::MockApiError::UnknownPackage { package } => package@
                        == package_name@ && self.spec_has_project(project_name@)
                        && !self.spec_project(project_name@).spec_has_package(package_name@),
                    crate::errors::MockApiError::UnknownRepository { project, repository } => {
                        &&& project@ == project_name@
                        &&& repository@ == repo_name@
                        &&& self.spec_has_project(project_name@)
                        &&& self.spec_project(project_name@).spec_has_package(package_name@)
                        &&& !repos_has(self.spec_project(project_name@).repos@, repo_name@)
                    },
                    crate::errors::MockApiError::UnknownArch { project, repository, arch: a } => {
                        &&& project@ == project_name@
                        &&& repository@ == repo_name@
                        &&& a@ == arch@
                        &&& self.spec_has_project(project_name@)
                        &&& self.spec_project(project_name@).spec_has_package(package_name@)
                        &&& repos_has(self.spec_project(project_name@).repos@, repo_name@)
                        &&& !spec_had_cell(self.spec_project(project_name@), repo_name@, arch@)
                    },
                    _ => false,
                },
            },
    {
        let proj = match self.project_ref(project_name) {
            Some(p) => p,
            None => {
                return Err(
                    crate::errors::MockApiError::UnknownProject {
                        project: project_name.clone(),
                    },
                );
            },
        };
        if !proj.contains_package(package_name) {
            return Err(
                crate::errors::MockApiError::UnknownPackage { package: package_name.clone() },
            );
        }
        let ri = match repos_find(&proj.repos, repo_name) {
            Some(i) => i,
            None => {
                return Err(
                    crate::errors::MockApiError::UnknownRepository {
                        project: project_name.clone(),
                        repository: repo_name.clone(),
                    },
                );
            },
        };
        proof {
            lemma_repos_index(proj.repos@, repo_name@, ri as int);
        }
        let aj = match arches_find(&proj.repos[ri].arches, arch) {
            Some(j) => j,
            None => {
                return Err(
                    crate::errors::MockApiError::UnknownArch {
                        project: project_name.clone(),
                        repository: repo_name.clone(),
                        arch: arch.clone(),
                    },
                );
            },
        };
        proof {
            lemma_arches_index(proj.repos@[ri as int].arches@, arch@, aj as int);
        }
        let cell = &proj.repos[ri].arches[aj].repo;
        let found = crate::project::cellpkgs_find(&cell.packages, package_name);
        match found {
            Some(k) => {
                proof {
                    crate::project::lemma_cellpkgs_index(cell.packages@, package_name@, k as int);
                }
                Ok(cell.packages[k].status.clone())
            },
            None => Ok(MockBuildStatus::default()),
        }
    }

    /// Records the status the project serves for rebuild requests.
    pub fn set_package_build_status_for_rebuilds(
        &mut self,
        project_name: &String,
        status: MockBuildStatus,
    )
        requires
            old(self).wf(),
            old(self).spec_has_project(project_name@),
        ensures
            final(self).wf(),
            old(self).spec_same_except_project(*final(self), project_name@),
            final(self).spec_has_project(project_name@),
            ({
                let oldproj = old(self).spec_project(project_name@);
                let newproj = final(self).spec_project(project_name@);
                &&& newproj.packages == oldproj.packages
                &&& newproj.repos == oldproj.repos
                &&& newproj.rebuild == oldproj.rebuild
                &&& newproj.block == oldproj.block
                &&& newproj.rebuild_status == status
            }),
    {
        let ghost old_self = *old(self);
        let proj = self.project_mut(project_name);
        proj.rebuild_status = status;
        proof {
            let i = projs_index(old_self.projects@, project_name@);
            lemma_projs_update_frame(old_self, *self, i);
            assert forall|j: int| 0 <= j < self.projects@.len() implies (
            #[trigger] self.projects@[j]).project.wf() by {
                if j != i {
                    assert(self.projects@[j] == old_self.projects@[j]);
                }
            }
        }
    }
}

} // verus!
