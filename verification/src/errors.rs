//! The typed errors of the store's protocol operations. Every user-visible
//! failure maps to exactly one of these; the HTTP layer turns them into
//! status documents.

use vstd::prelude::*;
use vstd::string::StringExecFns;

verus! {

/// Everything a source-store operation can fail with.
#[derive(Debug)]
pub enum MockApiError {
    /// The named project does not exist.
    UnknownProject { project: String },
    /// The named package does not exist in its project.
    UnknownPackage { package: String },
    /// A revision index that is not a number.
    BadRevision { arg: String },
    /// A numeric revision index outside the history.
    NoSuchRevision,
    /// A query flag that should have been `0` or `1`.
    NotBoolean,
    /// The branch target package already exists and `force` was not given.
    DoubleBranchPackage { target_project: String, target_package: String },
    /// `missingok` was asserted but the origin package exists.
    NotMissing { project: String, package: String },
    /// A malformed request, with the reason.
    InvalidRequest { reason: String },
    /// A revision referenced a blob absent from the content store; an
    /// internal invariant violation, never seen by a correct client.
    DanglingReference,
    /// The named source file is not part of the latest revision.
    SourceFileNotFound { name: String },
    /// A request shape the store does not model.
    UnsupportedOperation,
    /// A POST without the command parameter.
    MissingParameter,
    /// A POST with a command the store does not know.
    IllegalRequest,
    /// A mode parameter naming no known mode.
    InvalidArgument,
    /// The named repository does not exist in its project.
    UnknownRepository { project: String, repository: String },
    /// The named architecture does not exist in its repository.
    UnknownArch { project: String, repository: String, arch: String },
}

impl Clone for MockApiError {
    fn clone(&self) -> (r: Self)
        ensures
            spec_error_code(r) == spec_error_code(*self),
            spec_error_status(r) == spec_error_status(*self),
    {
        match self {
            MockApiError::UnknownProject { project } => MockApiError::UnknownProject {
                project: project.clone(),
            },
            MockApiError::UnknownPackage { package } => MockApiError::UnknownPackage {
                package: package.clone(),
            },
            MockApiError::BadRevision { arg } => MockApiError::BadRevision { arg: arg.clone() },
            MockApiError::NoSuchRevision => MockApiError::NoSuchRevision,
            MockApiError::NotBoolean => MockApiError::NotBoolean,
            MockApiError::DoubleBranchPackage { target_project, target_package } => {
                MockApiError::DoubleBranchPackage {
                    target_project: target_project.clone(),
                    target_package: target_package.clone(),
                }
            },
            MockApiError::NotMissing { project, package } => MockApiError::NotMissing {
                project: project.clone(),
                package: package.clone(),
            },
            MockApiError::InvalidRequest { reason } => MockApiError::InvalidRequest {
                reason: reason.clone(),
            },
            MockApiError::DanglingReference => MockApiError::DanglingReference,
            MockApiError::SourceFileNotFound { name } => MockApiError::SourceFileNotFound {
                name: name.clone(),
            },
            MockApiError::UnsupportedOperation => MockApiError::UnsupportedOperation,
            MockApiError::MissingParameter => MockApiError::MissingParameter,
            MockApiError::IllegalRequest => MockApiError::IllegalRequest,
            MockApiError::InvalidArgument => MockApiError::InvalidArgument,
            MockApiError::UnknownRepository { project, repository } => {
                MockApiError::UnknownRepository {
                    project: project.clone(),
                    repository: repository.clone(),
                }
            },
            MockApiError::UnknownArch { project, repository, arch } => MockApiError::UnknownArch {
                project: project.clone(),
                repository: repository.clone(),
                arch: arch.clone(),
            },
        }
    }
}

/// The wire code of each error.
pub open spec fn spec_error_code(e: MockApiError) -> Seq<char> {
    match e {
        MockApiError::UnknownProject { .. } => "unknown_project"@,
        MockApiError::UnknownPackage { .. } => "unknown_package"@,
        MockApiError::BadRevision { .. } => "400"@,
        MockApiError::NoSuchRevision => "400"@,
        MockApiError::NotBoolean => "400"@,
        MockApiError::DoubleBranchPackage { .. } => "double_branch_package"@,
        MockApiError::NotMissing { .. } => "not_missing"@,
        MockApiError::InvalidRequest { .. } => "400"@,
        MockApiError::DanglingReference => "dangling_reference"@,
        MockApiError::SourceFileNotFound { .. } => "404"@,
        MockApiError::UnsupportedOperation => "unsupported"@,
        MockApiError::MissingParameter => "missing_parameter"@,
        MockApiError::IllegalRequest => "illegal_request"@,
        MockApiError::InvalidArgument => "invalid_argument"@,
        MockApiError::UnknownRepository { .. } => "404"@,
        MockApiError::UnknownArch { .. } => "404"@,
    }
}

/// The HTTP status each error is served with.
pub open spec fn spec_error_status(e: MockApiError) -> u16 {
    match e {
        MockApiError::UnknownProject { .. } => 404,
        MockApiError::UnknownPackage { .. } => 404,
        MockApiError::BadRevision { .. } => 400,
        MockApiError::NoSuchRevision => 400,
        MockApiError::NotBoolean => 400,
        MockApiError::DoubleBranchPackage { .. } => 400,
        MockApiError::NotMissing { .. } => 400,
        MockApiError::InvalidRequest { .. } => 400,
        MockApiError::DanglingReference => 500,
        MockApiError::SourceFileNotFound { .. } => 404,
        MockApiError::UnsupportedOperation => 421,
        MockApiError::MissingParameter => 400,
        MockApiError::IllegalRequest => 404,
        MockApiError::InvalidArgument => 400,
        MockApiError::UnknownRepository { .. } => 404,
        MockApiError::UnknownArch { .. } => 404,
    }
}

impl MockApiError {
    /// The wire code of this error.
    pub fn code(&self) -> (r: String)
        ensures
            r@ == spec_error_code(*self),
    {
        match self {
            MockApiError::UnknownProject { .. } => String::from_str("unknown_project"),
            MockApiError::UnknownPackage { .. } => String::from_str("unknown_package"),
            MockApiError::BadRevision { .. } => String::from_str("400"),
            MockApiError::NoSuchRevision => String::from_str("400"),
            MockApiError::NotBoolean => String::from_str("400"),
            MockApiError::DoubleBranchPackage { .. } => String::from_str("double_branch_package"),
            MockApiError::NotMissing { .. } => String::from_str("not_missing"),
            MockApiError::InvalidRequest { .. } => String::from_str("400"),
            MockApiError::DanglingReference => String::from_str("dangling_reference"),
            MockApiError::SourceFileNotFound { .. } => String::from_str("404"),
            MockApiError::UnsupportedOperation => String::from_str("unsupported"),
            MockApiError::MissingParameter => String::from_str("missing_parameter"),
            MockApiError::IllegalRequest => String::from_str("illegal_request"),
            MockApiError::InvalidArgument => String::from_str("invalid_argument"),
            MockApiError::UnknownRepository { .. } => String::from_str("404"),
            MockApiError::UnknownArch { .. } => String::from_str("404"),
        }
    }

    /// The HTTP status this error is served with.
    pub fn http_status(&self) -> (r: u16)
        ensures
            r == spec_error_status(*self),
    {
        match self {
            MockApiError::UnknownProject { .. } => 404,
            MockApiError::UnknownPackage { .. } => 404,
            MockApiError::BadRevision { .. } => 400,
            MockApiError::NoSuchRevision => 400,
            MockApiError::NotBoolean => 400,
            MockApiError::DoubleBranchPackage { .. } => 400,
            MockApiError::NotMissing { .. } => 400,
            MockApiError::InvalidRequest { .. } => 400,
            MockApiError::DanglingReference => 500,
            MockApiError::SourceFileNotFound { .. } => 404,
            MockApiError::UnsupportedOperation => 421,
            MockApiError::MissingParameter => 400,
            MockApiError::IllegalRequest => 404,
            MockApiError::InvalidArgument => 400,
            MockApiError::UnknownRepository { .. } => 404,
            MockApiError::UnknownArch { .. } => 404,
        }
    }
}

} // verus!
