//! Status and mode enumerations, with the lowercase names they carry on the
//! wire and, where requests name them, parsers back from those names.

use vstd::prelude::*;
use vstd::string::StringExecFns;

verus! {

/// State of one repository/architecture cell.
#[derive(Copy, Clone, Debug, Eq, PartialEq, Structural)]
pub enum MockRepositoryCode {
    Unknown,
    Broken,
    Scheduling,
    Blocked,
    Building,
    Finished,
    Publishing,
    Published,
    Unpublished,
}

/// The lowercase wire name of a repository code.
pub open spec fn spec_repository_code_str(c: MockRepositoryCode) -> Seq<char> {
    match c {
        MockRepositoryCode::Unknown => "unknown"@,
        MockRepositoryCode::Broken => "broken"@,
        MockRepositoryCode::Scheduling => "scheduling"@,
        MockRepositoryCode::Blocked => "blocked"@,
        MockRepositoryCode::Building => "building"@,
        MockRepositoryCode::Finished => "finished"@,
        MockRepositoryCode::Publishing => "publishing"@,
        MockRepositoryCode::Published => "published"@,
        MockRepositoryCode::Unpublished => "unpublished"@,
    }
}

impl MockRepositoryCode {
    /// The name this code is written as on the wire.
    pub fn as_str(&self) -> (r: String)
        ensures
            r@ == spec_repository_code_str(*self),
    {
        match self {
            MockRepositoryCode::Unknown => String::from_str("unknown"),
            MockRepositoryCode::Broken => String::from_str("broken"),
            MockRepositoryCode::Scheduling => String::from_str("scheduling"),
            MockRepositoryCode::Blocked => String::from_str("blocked"),
            MockRepositoryCode::Building => String::from_str("building"),
            MockRepositoryCode::Finished => String::from_str("finished"),
            MockRepositoryCode::Publishing => String::from_str("publishing"),
            MockRepositoryCode::Published => String::from_str("published"),
            MockRepositoryCode::Unpublished => String::from_str("unpublished"),
        }
    }
}

/// State of one package inside a repository/architecture cell.
#[derive(Copy, Clone, Debug, Eq, PartialEq, Structural)]
pub enum MockPackageCode {
    Unresolvable,
    Succeeded,
    Dispatching,
    Failed,
    Broken,
    Disabled,
    Excluded,
    Blocked,
    Locked,
    Unknown,
    Scheduled,
    Building,
    Finished,
}

/// The lowercase wire name of a package code.
pub open spec fn spec_package_code_str(c: MockPackageCode) -> Seq<char> {
    match c {
        MockPackageCode::Unresolvable => "unresolvable"@,
        MockPackageCode::Succeeded => "succeeded"@,
        MockPackageCode::Dispatching => "dispatching"@,
        MockPackageCode::Failed => "failed"@,
        MockPackageCode::Broken => "broken"@,
        MockPackageCode::Disabled => "disabled"@,
        MockPackageCode::Excluded => "excluded"@,
        MockPackageCode::Blocked => "blocked"@,
        MockPackageCode::Locked => "locked"@,
        MockPackageCode::Unknown => "unknown"@,
        MockPackageCode::Scheduled => "scheduled"@,
        MockPackageCode::Building => "building"@,
        MockPackageCode::Finished => "finished"@,
    }
}

impl MockPackageCode {
    /// The name this code is written as on the wire.
    pub fn as_str(&self) -> (r: String)
        ensures
            r@ == spec_package_code_str(*self),
    {
        match self {
            MockPackageCode::Unresolvable => String::from_str("unresolvable"),
            MockPackageCode::Succeeded => String::from_str("succeeded"),
            MockPackageCode::Dispatching => String::from_str("dispatching"),
            MockPackageCode::Failed => String::from_str("failed"),
            MockPackageCode::Broken => String::from_str("broken"),
            MockPackageCode::Disabled => String::from_str("disabled"),
            MockPackageCode::Excluded => String::from_str("excluded"),
            MockPackageCode::Blocked => String::from_str("blocked"),
            MockPackageCode::Locked => String::from_str("locked"),
            MockPackageCode::Unknown => String::from_str("unknown"),
            MockPackageCode::Scheduled => String::from_str("scheduled"),
            MockPackageCode::Building => String::from_str("building"),
            MockPackageCode::Finished => String::from_str("finished"),
        }
    }
}

impl Default for MockPackageCode {
    fn default() -> (r: Self)
        ensures
            r == MockPackageCode::Unknown,
    {
        MockPackageCode::Unknown
    }
}

/// How builds in a project react to changed dependencies.
#[derive(Copy, Clone, Debug, Eq, PartialEq, Structural)]
pub enum MockRebuildMode {
    Transitive,
    Direct,
    Local,
}

/// The lowercase wire name of a rebuild mode.
pub open spec fn spec_rebuild_mode_str(m: MockRebuildMode) -> Seq<char> {
    match m {
        MockRebuildMode::Transitive => "transitive"@,
        MockRebuildMode::Direct => "direct"@,
        MockRebuildMode::Local => "local"@,
    }
}

/// The rebuild mode a wire name stands for, if any.
pub open spec fn spec_parse_rebuild_mode(s: Seq<char>) -> Option<MockRebuildMode> {
    if s == "transitive"@ {
        Some(MockRebuildMode::Transitive)
    } else if s == "direct"@ {
        Some(MockRebuildMode::Direct)
    } else if s == "local"@ {
        Some(MockRebuildMode::Local)
    } else {
        None
    }
}

impl MockRebuildMode {
    /// The name this mode is written as on the wire.
    pub fn as_str(&self) -> (r: String)
        ensures
            r@ == spec_rebuild_mode_str(*self),
    {
        match self {
            MockRebuildMode::Transitive => String::from_str("transitive"),
            MockRebuildMode::Direct => String::from_str("direct"),
            MockRebuildMode::Local => String::from_str("local"),
        }
    }

    /// Reads a mode back from its wire name.
    pub fn from_name(s: &String) -> (r: Option<Self>)
        ensures
            r == spec_parse_rebuild_mode(s@),
    {
        if *s == String::from_str("transitive") {
            Some(MockRebuildMode::Transitive)
        } else if *s == String::from_str("direct") {
            Some(MockRebuildMode::Direct)
        } else if *s == String::from_str("local") {
            Some(MockRebuildMode::Local)
        } else {
            None
        }
    }
}

impl Default for MockRebuildMode {
    fn default() -> (r: Self)
        ensures
            r == MockRebuildMode::Transitive,
    {
        MockRebuildMode::Transitive
    }
}

/// When builds in a project are blocked on other builds.
#[derive(Copy, Clone, Debug, Eq, PartialEq, Structural)]
pub enum MockBlockMode {
    All,
    Local,
    Never,
}

/// The lowercase wire name of a block mode.
pub open spec fn spec_block_mode_str(m: MockBlockMode) -> Seq<char> {
    match m {
        MockBlockMode::All => "all"@,
        MockBlockMode::Local => "local"@,
        MockBlockMode::Never => "never"@,
    }
}

/// The block mode a wire name stands for, if any.
pub open spec fn spec_parse_block_mode(s: Seq<char>) -> Option<MockBlockMode> {
    if s == "all"@ {
        Some(MockBlockMode::All)
    } else if s == "local"@ {
        Some(MockBlockMode::Local)
    } else if s == "never"@ {
        Some(MockBlockMode::Never)
    } else {
        None
    }
}

impl MockBlockMode {
    /// The name this mode is written as on the wire.
    pub fn as_str(&self) -> (r: String)
        ensures
            r@ == spec_block_mode_str(*self),
    {
        match self {
            MockBlockMode::All => String::from_str("all"),
            MockBlockMode::Local => String::from_str("local"),
            MockBlockMode::Never => String::from_str("never"),
        }
    }

    /// Reads a mode back from its wire name.
    pub fn from_name(s: &String) -> (r: Option<Self>)
        ensures
            r == spec_parse_block_mode(s@),
    {
        if *s == String::from_str("all") {
            Some(MockBlockMode::All)
        } else if *s == String::from_str("local") {
            Some(MockBlockMode::Local)
        } else if *s == String::from_str("never") {
            Some(MockBlockMode::Never)
        } else {
            None
        }
    }
}

impl Default for MockBlockMode {
    fn default() -> (r: Self)
        ensures
            r == MockBlockMode::All,
    {
        MockBlockMode::All
    }
}

} // verus!
