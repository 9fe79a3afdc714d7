//! The decisions of the build monitor: folding build results into per-cell
//! states and judging when watching is over and how it went. The polling
//! and printing around these decisions live outside the verified core.

use vstd::prelude::*;

verus! {

/// State of one package's build as the result listing reports it.
#[derive(Copy, Clone, Debug, Eq, PartialEq, Structural)]
pub enum PackageCode {
    Unresolvable,
    Succeeded,
    Dispatching,
    Failed,
    Broken,
    Disabled,
    Excluded,
    Blocked,
    Locked,
    Unknown,
    Scheduled,
    Building,
    Finished,
}

/// Whether a code is one a build never leaves.
pub open spec fn spec_is_final(c: PackageCode) -> bool {
    c == PackageCode::Broken || c == PackageCode::Disabled || c == PackageCode::Excluded || c
        == PackageCode::Failed || c == PackageCode::Succeeded
}

impl PackageCode {
    /// Whether this code is one a build never leaves.
    pub fn is_final(&self) -> (r: bool)
        ensures
            r == spec_is_final(*self),
    {
        match self {
            PackageCode::Broken => true,
            PackageCode::Disabled => true,
            PackageCode::Excluded => true,
            PackageCode::Failed => true,
            PackageCode::Succeeded => true,
            _ => false,
        }
    }
}

/// One package's status inside a result listing.
#[derive(Debug)]
pub struct BuildStatusInfo {
    pub package: String,
    pub code: PackageCode,
}

/// One repository/architecture line of a result listing.
#[derive(Debug)]
pub struct ResultListResult {
    pub repository: String,
    pub arch: String,
    pub dirty: bool,
    pub statuses: Vec<BuildStatusInfo>,
}

/// Whether some status line reports the given package.
pub open spec fn statuses_has(ss: Seq<BuildStatusInfo>, package: Seq<char>) -> bool {
    exists|i: int| 0 <= i < ss.len() && (#[trigger] ss[i]).package@ == package
}

/// The position of the first status line reporting the given package.
pub open spec fn statuses_first(ss: Seq<BuildStatusInfo>, package: Seq<char>) -> int
    decreases ss.len(),
{
    if ss.len() == 0 {
        -1
    } else if ss[0].package@ == package {
        0
    } else {
        let r = statuses_first(ss.drop_first(), package);
        if r < 0 {
            -1
        } else {
            r + 1
        }
    }
}

/// A match with none before it is the first match.
pub proof fn lemma_statuses_first_at(ss: Seq<BuildStatusInfo>, package: Seq<char>, i: int)
    requires
        0 <= i < ss.len(),
        ss[i].package@ == package,
        forall|j: int| 0 <= j < i ==> ss[j].package@ != package,
    ensures
        statuses_first(ss, package) == i,
    decreases i,
{
    if i > 0 {
        let tail = ss.drop_first();
        assert forall|j: int| 0 <= j < i - 1 implies tail[j].package@ != package by {
            assert(tail[j] == ss[j + 1]);
        }
        assert(tail[i - 1] == ss[i]);
        lemma_statuses_first_at(tail, package, i - 1);
    }
}

/// No match anywhere means no first match.
pub proof fn lemma_statuses_first_none(ss: Seq<BuildStatusInfo>, package: Seq<char>)
    requires
        forall|j: int| 0 <= j < ss.len() ==> ss[j].package@ != package,
    ensures
        statuses_first(ss, package) < 0,
    decreases ss.len(),
{
    if ss.len() > 0 {
        let tail = ss.drop_first();
        assert forall|j: int| 0 <= j < tail.len() implies tail[j].package@ != package by {
            assert(tail[j] == ss[j + 1]);
        }
        lemma_statuses_first_none(tail, package);
    }
}

impl ResultListResult {
    /// The first status line reporting the given package, if any.
    pub fn get_status<'a>(&'a self, package: &String) -> (r: Option<&'a BuildStatusInfo>)
        ensures
            match r {
                Some(s) => statuses_first(self.statuses@, package@) >= 0 && *s == self.statuses@[
                    statuses_first(self.statuses@, package@)],
                None => statuses_first(self.statuses@, package@) < 0,
            },
    {
        let mut i: usize = 0;
        while i < self.statuses.len()
            invariant
                i <= self.statuses@.len(),
                forall|j: int| 0 <= j < i ==> (#[trigger] self.statuses@[j]).package@ != package@,
            decreases self.statuses@.len() - i,
        {
            if self.statuses[i].package == *package {
                proof {
                    lemma_statuses_first_at(self.statuses@, package@, i as int);
                }
                return Some(&self.statuses[i]);
            }
            i = i + 1;
        }
        proof {
            lemma_statuses_first_none(self.statuses@, package@);
        }
        None
    }
}

/// One watched repository/architecture cell and the last code seen for it.
#[derive(Debug)]
pub struct MonitorData {
    pub repository: String,
    pub arch: String,
    pub code: PackageCode,
}

/// The code a result line folds to for a package: unknown while the cell is
/// dirty or the package is not reported, else the reported code.
pub open spec fn spec_monitor_code(r: ResultListResult, package: Seq<char>) -> PackageCode {
    if r.dirty {
        PackageCode::Unknown
    } else if statuses_first(r.statuses@, package) >= 0 {
        r.statuses@[statuses_first(r.statuses@, package)].code
    } else {
        PackageCode::Unknown
    }
}

impl MonitorData {
    /// Folds one result line into the state watched for a package.
    pub fn from_result(r: &ResultListResult, package: &String) -> (d: MonitorData)
        ensures
            d.repository@ == r.repository@,
            d.arch@ == r.arch@,
            d.code == spec_monitor_code(*r, package@),
    {
        let code = if r.dirty {
            PackageCode::Unknown
        } else {
            match r.get_status(package) {
                Some(s) => s.code,
                None => PackageCode::Unknown,
            }
        };
        MonitorData { repository: r.repository.clone(), arch: r.arch.clone(), code }
    }
}

/// Whether some watched cell carries the given repository and architecture.
pub open spec fn monitor_has(
    ds: Seq<MonitorData>,
    repository: Seq<char>,
    arch: Seq<char>,
) -> bool {
    exists|i: int|
        0 <= i < ds.len() && (#[trigger] ds[i]).repository@ == repository && ds[i].arch@ == arch
}

/// Takes one folded result into the watched state: a cell not seen before
/// is recorded as it came; a known cell moves to the new code only when
/// that code is known and differs. Says whether anything changed.
pub fn monitor_update(last: &mut Vec<MonitorData>, data: MonitorData) -> (changed: bool)
    ensures
        final(last)@.len() == old(last)@.len() + (if monitor_has(
            old(last)@,
            data.repository@,
            data.arch@,
        ) {
            0int
        } else {
            1int
        }),
        !monitor_has(old(last)@, data.repository@, data.arch@) ==> changed && final(last)@ == old(
            last,
        )@.push(data),
        monitor_has(old(last)@, data.repository@, data.arch@) ==> exists|i: int|
            {
                &&& 0 <= i < old(last)@.len()
                &&& (#[trigger] old(last)@[i]).repository@ == data.repository@
                &&& old(last)@[i].arch@ == data.arch@
                &&& if data.code != PackageCode::Unknown && old(last)@[i].code != data.code {
                    changed && final(last)@ == old(last)@.update(i, data)
                } else {
                    !changed && final(last)@ == old(last)@
                }
            },
{
    let mut i: usize = 0;
    while i < last.len()
        invariant
            i <= last@.len(),
            *last == *old(last),
            forall|j: int|
                0 <= j < i ==> !((#[trigger] last@[j]).repository@ == data.repository@
                    && last@[j].arch@ == data.arch@),
        decreases last@.len() - i,
    {
        if last[i].repository == data.repository && last[i].arch == data.arch {
            if !matches!(data.code, PackageCode::Unknown) && !code_eq(&last[i].code, &data.code) {
                last[i] = data;
                return true;
            }
            return false;
        }
        i = i + 1;
    }
    last.push(data);
    true
}

/// Compares two codes.
fn code_eq(a: &PackageCode, b: &PackageCode) -> (r: bool)
    ensures
        r == (a == b),
{
    *a == *b
}

/// How a finished watch went.
#[derive(Copy, Clone, Debug, Eq, PartialEq, Structural)]
pub enum MonitorVerdict {
    /// Every cell excluded or disabled the package.
    AllExcludedDisabled,
    /// Some cell reports a failed build.
    BuildFailure,
    /// Built everywhere it was built at all.
    Success,
}

/// Whether every watched cell reached a code a build never leaves.
pub fn monitor_done(last: &Vec<MonitorData>) -> (r: bool)
    ensures
        r == forall|i: int| 0 <= i < last@.len() ==> spec_is_final((#[trigger] last@[i]).code),
{
    let mut i: usize = 0;
    while i < last.len()
        invariant
            i <= last@.len(),
            forall|j: int| 0 <= j < i ==> spec_is_final((#[trigger] last@[j]).code),
        decreases last@.len() - i,
    {
        if !last[i].code.is_final() {
            return false;
        }
        i = i + 1;
    }
    true
}

/// The verdict over the watched cells.
pub fn monitor_verdict(last: &Vec<MonitorData>) -> (r: MonitorVerdict)
    ensures
        r == MonitorVerdict::AllExcludedDisabled <==> forall|i: int|
            0 <= i < last@.len() ==> ((#[trigger] last@[i]).code == PackageCode::Excluded
                || last@[i].code == PackageCode::Disabled),
        r == MonitorVerdict::BuildFailure ==> exists|i: int|
            0 <= i < last@.len() && (#[trigger] last@[i]).code == PackageCode::Failed,
        r == MonitorVerdict::Success ==> forall|i: int|
            0 <= i < last@.len() ==> (#[trigger] last@[i]).code != PackageCode::Failed,
{
    let mut all_excluded = true;
    let mut any_failed = false;
    let mut i: usize = 0;
    while i < last.len()
        invariant
            i <= last@.len(),
            all_excluded == forall|j: int|
                0 <= j < i ==> ((#[trigger] last@[j]).code == PackageCode::Excluded
                    || last@[j].code == PackageCode::Disabled),
            any_failed == exists|j: int|
                0 <= j < i && (#[trigger] last@[j]).code == PackageCode::Failed,
        decreases last@.len() - i,
    {
        let c = last[i].code;
        if !(matches!(c, PackageCode::Excluded) || matches!(c, PackageCode::Disabled)) {
            all_excluded = false;
        }
        if matches!(c, PackageCode::Failed) {
            any_failed = true;
        }
        i = i + 1;
    }
    if all_excluded {
        MonitorVerdict::AllExcludedDisabled
    } else if any_failed {
        MonitorVerdict::BuildFailure
    } else {
        MonitorVerdict::Success
    }
}

} // verus!
